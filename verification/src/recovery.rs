//! The recovery coordinator: per (step identifier, key) snapshot capture, and
//! resume-time reconstruction from what an external durable store returns.
//!
//! State is addressed by `(step_id, key)`: two steps never share state even
//! when their keys collide. Capture wraps each key's encoded accumulator in
//! the snapshot envelope and tags it with the current epoch; the external
//! store keeps the records verbatim and, on startup, serves the latest record
//! per `(step_id, key)` at or before the resume epoch. Restoration is fail
//! closed: a record whose envelope or payload no state encodes to aborts the
//! resumption of its key with an error naming the key, never a silent reset —
//! resuming such a key from empty would silently lose completed work.

use vstd::prelude::*;

use crate::envelope;
use crate::store::{map_of, KeyedStore};

verus! {

/// The serialize/restore capability an accumulator type must supply for its
/// state to be recoverable. Encoding must be lossless: the injectivity lemma
/// is part of the contract, so a persisted snapshot determines its state.
pub trait SnapshotCodec: Sized {
    /// The state type this codec serializes.
    type State: DeepView;

    /// The bytes a state serializes to.
    spec fn encode_view(&self, s: <Self::State as DeepView>::V) -> Seq<u8>;

    /// Encoding never conflates two states.
    proof fn lemma_encode_view_injective(
        &self,
        a: <Self::State as DeepView>::V,
        b: <Self::State as DeepView>::V,
    )
        requires
            self.encode_view(a) == self.encode_view(b),
        ensures
            a == b,
    ;

    /// Serialize a state.
    fn encode_state(&self, s: &Self::State) -> (r: Vec<u8>)
        ensures
            r@ == self.encode_view(s.deep_view()),
            r@.len() <= u64::MAX,
    ;

    /// Deserialize a state, failing closed: `None` exactly when no state
    /// encodes to these bytes.
    fn decode_state(&self, bytes: &Vec<u8>) -> (r: Option<Self::State>)
        ensures
            match r {
                Some(s) => self.encode_view(s.deep_view()) == bytes@,
                None => forall|sv: <Self::State as DeepView>::V| self.encode_view(sv) != bytes@,
            },
    ;
}

/// The bytes persisted for one state: its encoding, wrapped in the snapshot
/// envelope.
pub open spec fn snapshot_bytes<C: SnapshotCodec>(
    codec: C,
    sv: <C::State as DeepView>::V,
) -> Seq<u8> {
    envelope::encode_spec(codec.encode_view(sv))
}

/// A persisted snapshot determines its state: equal snapshot bytes can only
/// come from equal states.
pub proof fn lemma_snapshot_determines_state<C: SnapshotCodec>(
    codec: C,
    a: <C::State as DeepView>::V,
    b: <C::State as DeepView>::V,
)
    requires
        codec.encode_view(a).len() <= u64::MAX,
        codec.encode_view(b).len() <= u64::MAX,
        snapshot_bytes(codec, a) == snapshot_bytes(codec, b),
    ensures
        a == b,
{
    envelope::lemma_encode_injective(codec.encode_view(a), codec.encode_view(b));
    codec.lemma_encode_view_injective(a, b);
}

/// One record handed to the external durable store: which step and key the
/// snapshot belongs to, the epoch it was captured at, and the envelope.
pub struct SnapshotRecord {
    /// The stateful step the state belongs to.
    pub step_id: String,
    /// The key the state belongs to.
    pub key: String,
    /// The epoch the snapshot was captured at.
    pub epoch: u64,
    /// The enveloped, serialized state.
    pub envelope: Vec<u8>,
}

/// Why a key's resumption failed.
#[derive(PartialEq, Eq, Debug)]
pub enum RecoveryError {
    /// The record's bytes are not a snapshot envelope; the field names the
    /// key whose resumption is aborted.
    CorruptEnvelope(String),
    /// The envelope's payload is not an encoded state; the field names the
    /// key whose resumption is aborted.
    CorruptState(String),
}

/// Capture one key's state as a persistable record, tagged with the epoch.
pub fn capture<C: SnapshotCodec>(
    codec: &C,
    step_id: &String,
    key: &String,
    epoch: u64,
    state: &C::State,
) -> (r: SnapshotRecord)
    ensures
        r.step_id@ == step_id@,
        r.key@ == key@,
        r.epoch == epoch,
        r.envelope@ == snapshot_bytes(*codec, state.deep_view()),
{
    let payload = codec.encode_state(state);
    SnapshotRecord {
        step_id: step_id.clone(),
        key: key.clone(),
        epoch,
        envelope: envelope::encode(&payload),
    }
}

/// Reconstruct one key's state from a record, failing closed: an error names
/// the key and comes exactly when no state's snapshot matches the record.
pub fn restore<C: SnapshotCodec>(codec: &C, record: &SnapshotRecord) -> (r: Result<
    C::State,
    RecoveryError,
>)
    ensures
        match r {
            Ok(s) => record.envelope@ == snapshot_bytes(*codec, s.deep_view()),
            Err(_) => forall|sv: <C::State as DeepView>::V|
                record.envelope@ != snapshot_bytes(*codec, sv),
        },
{
    match envelope::decode(&record.envelope) {
        Ok(payload) => {
            match codec.decode_state(&payload) {
                Some(s) => Ok(s),
                None => {
                    proof {
                        assert forall|sv: <C::State as DeepView>::V|
                            record.envelope@ != snapshot_bytes(*codec, sv) by {
                            if record.envelope@ == snapshot_bytes(*codec, sv) {
                                vstd::std_specs::vec::axiom_spec_len(&record.envelope);
                                vstd::std_specs::vec::axiom_spec_len(&payload);
                                assert(codec.encode_view(sv).len() <= u64::MAX);
                                envelope::lemma_encode_injective(payload@, codec.encode_view(sv));
                            }
                        }
                    }
                    Err(RecoveryError::CorruptState(record.key.clone()))
                },
            }
        },
        Err(_) => Err(RecoveryError::CorruptEnvelope(record.key.clone())),
    }
}

/// Capture a whole per-key store for one step: one record per resident key,
/// in the store's entry order, all tagged with the same epoch.
pub fn capture_store<C: SnapshotCodec>(
    codec: &C,
    step_id: &String,
    epoch: u64,
    store: &KeyedStore<C::State>,
) -> (r: Vec<SnapshotRecord>)
    ensures
        r@.len() == store.entries().len(),
        forall|i: int|
            #![trigger r@[i]]
            0 <= i < r@.len() ==> r@[i].step_id@ == step_id@ && r@[i].epoch == epoch && r@[i].key@
                == store.entries()[i].0 && r@[i].envelope@ == snapshot_bytes(
                *codec,
                store.entries()[i].1,
            ),
{
    let mut r: Vec<SnapshotRecord> = Vec::new();
    let n = store.len();
    let mut i: usize = 0;
    while i < n
        invariant
            i <= n,
            n == store.entries().len(),
            r@.len() == i,
            forall|j: int|
                #![trigger r@[j]]
                0 <= j < i ==> r@[j].step_id@ == step_id@ && r@[j].epoch == epoch && r@[j].key@
                    == store.entries()[j].0 && r@[j].envelope@ == snapshot_bytes(
                    *codec,
                    store.entries()[j].1,
                ),
        decreases n - i,
    {
        let key = store.key_at(i);
        let state = store.value_at(i);
        let rec = capture(codec, step_id, key, epoch, state);
        r.push(rec);
        i = i + 1;
    }
    r
}

/// The map a record sequence restores to: each record's key bound to the one
/// state its snapshot determines, later records winning; `None` when some
/// record is corrupt.
pub open spec fn restore_map<C: SnapshotCodec>(
    codec: C,
    recs: Seq<(Seq<char>, Seq<u8>)>,
) -> Option<Map<Seq<char>, <C::State as DeepView>::V>>
    decreases recs.len(),
{
    if recs.len() == 0 {
        Some(Map::<Seq<char>, <C::State as DeepView>::V>::empty())
    } else {
        match restore_map(codec, recs.drop_last()) {
            None => None,
            Some(m) => {
                if exists|sv: <C::State as DeepView>::V|
                    recs.last().1 == snapshot_bytes(codec, sv) {
                    let sv = choose|sv: <C::State as DeepView>::V|
                        recs.last().1 == snapshot_bytes(codec, sv);
                    Some(m.insert(recs.last().0, sv))
                } else {
                    None
                }
            },
        }
    }
}

/// A record sequence's (key, envelope) abstraction.
pub open spec fn records_view(recs: Seq<SnapshotRecord>) -> Seq<(Seq<char>, Seq<u8>)> {
    recs.map(|i: int, r: SnapshotRecord| (r.key@, r.envelope@))
}

/// Rebuild a whole per-key store for one step from the records the external
/// store served, before any new input for those keys is processed. Fails
/// closed: one corrupt record aborts the resumption with an error naming its
/// key (a key with no record simply starts fresh, by not being here).
pub fn restore_store<C: SnapshotCodec>(codec: &C, records: &Vec<SnapshotRecord>) -> (r: Result<
    KeyedStore<C::State>,
    RecoveryError,
>)
    ensures
        match r {
            Ok(st) => st.wf() && restore_map(*codec, records_view(records@)) == Some(st@),
            Err(_) => restore_map(*codec, records_view(records@)) is None,
        },
{
    let mut st: KeyedStore<C::State> = KeyedStore::new();
    let mut i: usize = 0;
    let n = records.len();
    proof {
        assert(records_view(records@.take(0)) =~= Seq::<(Seq<char>, Seq<u8>)>::empty());
    }
    while i < n
        invariant
            i <= n,
            n == records@.len(),
            st.wf(),
            restore_map(*codec, records_view(records@.take(i as int))) == Some(st@),
        decreases n - i,
    {
        let rec = &records[i];
        match restore(codec, rec) {
            Ok(state) => {
                proof {
                    let prefix = records_view(records@.take(i as int));
                    let full = records_view(records@.take(i as int + 1));
                    assert(records@.take(i as int + 1) =~= records@.take(i as int).push(
                        records@[i as int],
                    ));
                    assert(full.drop_last() =~= prefix);
                    assert(full.last() == (rec.key@, rec.envelope@));
                    assert(full.last().1 == snapshot_bytes(*codec, state.deep_view()));
                    let c = choose|sv: <C::State as DeepView>::V|
                        full.last().1 == snapshot_bytes(*codec, sv);
                    vstd::std_specs::vec::axiom_spec_len(&rec.envelope);
                    assert(codec.encode_view(state.deep_view()).len() <= u64::MAX);
                    assert(codec.encode_view(c).len() <= u64::MAX);
                    lemma_snapshot_determines_state(*codec, c, state.deep_view());
                    assert(c == state.deep_view());
                    assert(restore_map(*codec, full) == Some(st@.insert(rec.key@, c)));
                }
                st.insert(rec.key.clone(), state);
            },
            Err(e) => {
                proof {
                    lemma_restore_map_corrupt_prefix(
                        *codec,
                        records_view(records@),
                        i as int,
                    );
                    assert(records_view(records@)[i as int].1 == rec.envelope@);
                }
                return Err(e);
            },
        }
        i = i + 1;
    }
    proof {
        assert(records@.take(n as int) =~= records@);
    }
    Ok(st)
}

/// A corrupt record anywhere makes the whole restoration fail.
proof fn lemma_restore_map_corrupt_prefix<C: SnapshotCodec>(
    codec: C,
    recs: Seq<(Seq<char>, Seq<u8>)>,
    i: int,
)
    requires
        0 <= i < recs.len(),
        forall|sv: <C::State as DeepView>::V| recs[i].1 != snapshot_bytes(codec, sv),
    ensures
        restore_map(codec, recs) is None,
    decreases recs.len(),
{
    if recs.len() > 0 {
        if i == recs.len() - 1 {
            assert(recs.last() == recs[i]);
        } else {
            assert(recs.drop_last()[i] == recs[i]);
            lemma_restore_map_corrupt_prefix(codec, recs.drop_last(), i);
        }
    }
}

/// Crash consistency: restoring what capture produced yields exactly the
/// captured per-key state. Stated over any entry sequence with distinct keys
/// (every well-formed store's entries are such a sequence): the records built
/// from it restore to precisely the map it denotes.
pub proof fn lemma_capture_restore_consistent<C: SnapshotCodec>(
    codec: C,
    entries: Seq<(Seq<char>, <C::State as DeepView>::V)>,
)
    requires
        forall|i: int|
            0 <= i < entries.len() ==> (#[trigger] codec.encode_view(entries[i].1)).len()
                <= u64::MAX,
    ensures
        restore_map(
            codec,
            entries.map(
                |i: int, e: (Seq<char>, <C::State as DeepView>::V)|
                    (e.0, snapshot_bytes(codec, e.1)),
            ),
        ) == Some(map_of(entries)),
    decreases entries.len(),
{
    let f = |i: int, e: (Seq<char>, <C::State as DeepView>::V)| (e.0, snapshot_bytes(codec, e.1));
    let recs = entries.map(f);
    if entries.len() == 0 {
        assert(recs.len() == 0);
        assert(restore_map(codec, recs) == Some(
            Map::<Seq<char>, <C::State as DeepView>::V>::empty(),
        ));
    } else {
        assert forall|i: int| 0 <= i < entries.drop_last().len() implies (
        #[trigger] codec.encode_view(entries.drop_last()[i].1)).len() <= u64::MAX by {
            assert(entries.drop_last()[i] == entries[i]);
        }
        lemma_capture_restore_consistent(codec, entries.drop_last());
        assert(recs.drop_last() =~= entries.drop_last().map(f));
        assert(recs.last() == (entries.last().0, snapshot_bytes(codec, entries.last().1)));
        assert(recs.last().1 == snapshot_bytes(codec, entries.last().1));
        let sv = choose|sv: <C::State as DeepView>::V|
            recs.last().1 == snapshot_bytes(codec, sv);
        lemma_snapshot_determines_state(codec, sv, entries.last().1);
        assert(sv == entries.last().1);
    }
}

} // verus!
