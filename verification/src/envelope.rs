//! The state snapshot envelope: the opaque, serializable byte form of one
//! accumulator value.
//!
//! The envelope is what crosses the recovery persistence boundary: an external
//! durable store keeps it verbatim and hands it back on resume. It is
//! self-describing enough for deserialization to detect corruption — a magic
//! marker and an explicit payload length — and decoding fails closed: a byte
//! string that no payload encodes to is rejected, never silently treated as
//! some payload.

use vstd::prelude::*;

verus! {

/// First magic byte of every envelope.
pub const MAGIC_0: u8 = 0xB5;

/// Second magic byte of every envelope.
pub const MAGIC_1: u8 = 0x57;

/// Why a byte string was rejected as an envelope.
#[derive(Clone, Copy, PartialEq, Eq, Debug)]
pub enum EnvelopeError {
    /// Shorter than the fixed header.
    TooShort,
    /// The magic marker is wrong.
    BadMagic,
    /// The declared payload length does not match the actual payload.
    LengthMismatch,
}

/// The eight little-endian bytes of a length.
pub open spec fn u64_le(n: u64) -> Seq<u8> {
    Seq::new(8, |k: int| ((n >> (8 * k as u64)) & 0xff) as u8)
}

/// The envelope of a payload: magic marker, little-endian payload length,
/// payload.
pub open spec fn encode_spec(payload: Seq<u8>) -> Seq<u8> {
    seq![MAGIC_0, MAGIC_1] + u64_le(payload.len() as u64) + payload
}

/// Envelopes are lossless: equal envelopes wrap equal payloads.
pub proof fn lemma_encode_injective(a: Seq<u8>, b: Seq<u8>)
    requires
        a.len() <= u64::MAX,
        b.len() <= u64::MAX,
        encode_spec(a) == encode_spec(b),
    ensures
        a == b,
{
    assert(encode_spec(a).len() == 10 + a.len());
    assert(encode_spec(b).len() == 10 + b.len());
    assert forall|i: int| 0 <= i < a.len() implies a[i] == b[i] by {
        assert(encode_spec(a)[10 + i] == a[i]);
        assert(encode_spec(b)[10 + i] == b[i]);
    }
    assert(a =~= b);
}

/// Wrap a payload in its envelope.
pub fn encode(payload: &Vec<u8>) -> (r: Vec<u8>)
    ensures
        r@ == encode_spec(payload@),
{
    let mut r: Vec<u8> = Vec::new();
    r.push(MAGIC_0);
    r.push(MAGIC_1);
    let n: u64 = payload.len() as u64;
    let mut k: usize = 0;
    while k < 8
        invariant
            k <= 8,
            n == payload@.len(),
            r@.len() == 2 + k,
            r@[0] == MAGIC_0,
            r@[1] == MAGIC_1,
            forall|j: int| 0 <= j < k ==> r@[2 + j] == u64_le(n)[j],
        decreases 8 - k,
    {
        let shift: u64 = 8 * (k as u64);
        r.push(((n >> shift) & 0xff) as u8);
        k = k + 1;
    }
    let mut i: usize = 0;
    while i < payload.len()
        invariant
            i <= payload@.len(),
            n == payload@.len(),
            r@.len() == 10 + i,
            r@[0] == MAGIC_0,
            r@[1] == MAGIC_1,
            forall|j: int| 0 <= j < 8 ==> r@[2 + j] == u64_le(n)[j],
            forall|j: int| 0 <= j < i ==> r@[10 + j] == payload@[j],
        decreases payload@.len() - i,
    {
        r.push(payload[i]);
        i = i + 1;
    }
    proof {
        assert(r@ =~= encode_spec(payload@));
    }
    r
}

/// Unwrap an envelope, failing closed: the payload is returned only when the
/// bytes are exactly its envelope, and a byte string that no payload encodes
/// to is rejected with the reason.
pub fn decode(bytes: &Vec<u8>) -> (r: Result<Vec<u8>, EnvelopeError>)
    ensures
        match r {
            Ok(payload) => bytes@ == encode_spec(payload@),
            Err(_) => forall|p: Seq<u8>| bytes@ != encode_spec(p),
        },
{
    if bytes.len() < 10 {
        proof {
            assert forall|p: Seq<u8>| bytes@ != encode_spec(p) by {
                assert(encode_spec(p).len() == 10 + p.len());
            }
        }
        return Err(EnvelopeError::TooShort);
    }
    if bytes[0] != MAGIC_0 || bytes[1] != MAGIC_1 {
        proof {
            assert forall|p: Seq<u8>| bytes@ != encode_spec(p) by {
                assert(encode_spec(p)[0] == MAGIC_0 && encode_spec(p)[1] == MAGIC_1);
            }
        }
        return Err(EnvelopeError::BadMagic);
    }
    let pl: usize = bytes.len() - 10;
    let n: u64 = pl as u64;
    let mut k: usize = 0;
    while k < 8
        invariant
            k <= 8,
            n == pl,
            pl == bytes@.len() - 10,
            bytes@.len() >= 10,
            forall|j: int| 0 <= j < k ==> bytes@[2 + j] == u64_le(n)[j],
        decreases 8 - k,
    {
        let shift: u64 = 8 * (k as u64);
        if bytes[2 + k] != ((n >> shift) & 0xff) as u8 {
            proof {
                let kk = k as int;
                assert forall|p: Seq<u8>| bytes@ != encode_spec(p) by {
                    if bytes@ == encode_spec(p) {
                        assert(encode_spec(p).len() == 10 + p.len());
                        assert(p.len() == pl);
                        assert(encode_spec(p)[2 + kk] == u64_le(p.len() as u64)[kk]);
                        assert(bytes@[2 + kk] == u64_le(n)[kk]);
                    }
                }
            }
            return Err(EnvelopeError::LengthMismatch);
        }
        k = k + 1;
    }
    let mut payload: Vec<u8> = Vec::new();
    let mut i: usize = 0;
    while i < pl
        invariant
            i <= pl,
            pl == bytes@.len() - 10,
            bytes@.len() >= 10,
            pl <= usize::MAX - 10,
            payload@.len() == i,
            forall|j: int| 0 <= j < i ==> payload@[j] == bytes@[10 + j],
        decreases pl - i,
    {
        payload.push(bytes[10 + i]);
        i = i + 1;
    }
    proof {
        assert(bytes@ =~= encode_spec(payload@));
    }
    Ok(payload)
}

} // verus!
