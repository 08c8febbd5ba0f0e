//! Ready-made user-logic implementations: combine functions, completion
//! predicates, builders, mappers and a snapshot codec over plain value types.
//!
//! Each one carries its proof, so a host can run the operators on these
//! directly; they also document what an implementation of the strategy traits
//! owes. A host language binding supplies its own implementations the same
//! way.

use vstd::prelude::*;

use crate::clock::sat_u64;
use crate::envelope::u64_le;
use crate::logic::{Combiner, Folder};
use crate::recovery::SnapshotCodec;
use crate::reduce::Reducer;
use crate::stateful_map::StatefulMapOps;

verus! {

/// Sum two counters, saturating at the largest representable value.
pub struct SaturatingSum;

impl Combiner for SaturatingSum {
    type V = u64;

    open spec fn combine_view(&self, acc: u64, value: u64) -> u64 {
        sat_u64(acc + value)
    }

    fn combine(&self, acc: u64, value: u64) -> (r: u64) {
        if acc > u64::MAX - value {
            u64::MAX
        } else {
            acc + value
        }
    }

    fn clone_value(&self, v: &u64) -> (r: u64) {
        *v
    }
}

/// Concatenate value lists, keeping delivery order.
pub struct VecConcat;

impl Combiner for VecConcat {
    type V = Vec<u64>;

    open spec fn combine_view(&self, acc: Seq<u64>, value: Seq<u64>) -> Seq<u64> {
        acc + value
    }

    fn combine(&self, acc: Vec<u64>, value: Vec<u64>) -> (r: Vec<u64>) {
        let mut a = acc;
        let mut v = value;
        a.append(&mut v);
        proof {
            assert(a.deep_view() =~= acc.deep_view() + value.deep_view());
        }
        a
    }

    fn clone_value(&self, v: &Vec<u64>) -> (r: Vec<u64>) {
        let mut r: Vec<u64> = Vec::new();
        let mut i: usize = 0;
        while i < v.len()
            invariant
                i <= v@.len(),
                r@ == v@.take(i as int),
            decreases v@.len() - i,
        {
            r.push(v[i]);
            proof {
                assert(r@ =~= v@.take(i as int + 1));
            }
            i = i + 1;
        }
        proof {
            assert(v@.take(v@.len() as int) =~= v@);
            assert(r.deep_view() =~= v.deep_view());
        }
        r
    }
}

/// Session accumulation: append each batch of event names to the session, and
/// declare the session complete once it holds the closing event.
pub struct SessionReducer;

/// The event name that closes a session.
pub open spec fn closing_event() -> Seq<char> {
    "logout"@
}

impl Reducer for SessionReducer {
    type V = Vec<String>;

    open spec fn combine_view(&self, acc: Seq<Seq<char>>, value: Seq<Seq<char>>) -> Seq<
        Seq<char>,
    > {
        acc + value
    }

    open spec fn is_complete_view(&self, acc: Seq<Seq<char>>) -> bool {
        exists|i: int| 0 <= i < acc.len() && acc[i] == closing_event()
    }

    fn combine(&self, acc: Vec<String>, value: Vec<String>) -> (r: Vec<String>) {
        let mut a = acc;
        let mut v = value;
        a.append(&mut v);
        proof {
            assert(a.deep_view() =~= acc.deep_view() + value.deep_view());
        }
        a
    }

    fn is_complete(&self, acc: &Vec<String>) -> (r: bool) {
        let target: String = "logout".to_owned();
        let mut i: usize = 0;
        while i < acc.len()
            invariant
                i <= acc@.len(),
                target@ == closing_event(),
                forall|j: int| 0 <= j < i ==> acc.deep_view()[j] != closing_event(),
            decreases acc@.len() - i,
        {
            if acc[i] == target {
                proof {
                    assert(acc.deep_view()[i as int] == closing_event());
                }
                return true;
            }
            i = i + 1;
        }
        false
    }
}

/// Accumulate a sum per key and declare it complete once it reaches a
/// threshold.
pub struct ThresholdSum {
    /// The sum at which the accumulator is emitted.
    pub threshold: u64,
}

impl Reducer for ThresholdSum {
    type V = u64;

    open spec fn combine_view(&self, acc: u64, value: u64) -> u64 {
        sat_u64(acc + value)
    }

    open spec fn is_complete_view(&self, acc: u64) -> bool {
        acc >= self.threshold
    }

    fn combine(&self, acc: u64, value: u64) -> (r: u64) {
        if acc > u64::MAX - value {
            u64::MAX
        } else {
            acc + value
        }
    }

    fn is_complete(&self, acc: &u64) -> (r: bool) {
        *acc >= self.threshold
    }
}

/// Count the items of each window, whatever they hold.
pub struct CountingFold;

impl Folder for CountingFold {
    type V = u64;

    type Acc = u64;

    open spec fn build_view(&self, key: Seq<char>) -> u64 {
        0
    }

    open spec fn fold_view(&self, acc: u64, value: u64) -> u64 {
        sat_u64(acc + 1)
    }

    fn build(&self, key: &String) -> (r: u64) {
        0
    }

    fn fold(&self, acc: u64, value: u64) -> (r: u64) {
        if acc == u64::MAX {
            acc
        } else {
            acc + 1
        }
    }

    fn clone_acc(&self, acc: &u64) -> (r: u64) {
        *acc
    }
}

/// Per-key running count that forgets itself once it reaches a limit: the
/// output is the updated count, and when it reaches the limit the key's state
/// is dropped, so the next item starts counting from scratch.
pub struct CountToLimit {
    /// The count at which the key's state is forgotten.
    pub limit: u64,
}

impl StatefulMapOps for CountToLimit {
    type State = u64;

    type V = u64;

    type Out = u64;

    open spec fn build_view(&self, key: Seq<char>) -> u64 {
        0
    }

    open spec fn map_view(&self, state: u64, value: u64) -> (Option<u64>, u64) {
        let count = sat_u64(state + 1);
        if count >= self.limit {
            (None, count)
        } else {
            (Some(count), count)
        }
    }

    fn build(&self, key: &String) -> (r: u64) {
        0
    }

    fn mapper(&self, state: u64, value: u64) -> (r: (Option<u64>, u64)) {
        let count = if state == u64::MAX {
            state
        } else {
            state + 1
        };
        if count >= self.limit {
            (None, count)
        } else {
            (Some(count), count)
        }
    }
}

/// Little-endian serialization of a counter state, for recovery.
pub struct U64LeCodec;

impl SnapshotCodec for U64LeCodec {
    type State = u64;

    open spec fn encode_view(&self, s: u64) -> Seq<u8> {
        u64_le(s)
    }

    proof fn lemma_encode_view_injective(&self, a: u64, b: u64) {
        assert(u64_le(a)[0] == u64_le(b)[0]);
        assert(u64_le(a)[1] == u64_le(b)[1]);
        assert(u64_le(a)[2] == u64_le(b)[2]);
        assert(u64_le(a)[3] == u64_le(b)[3]);
        assert(u64_le(a)[4] == u64_le(b)[4]);
        assert(u64_le(a)[5] == u64_le(b)[5]);
        assert(u64_le(a)[6] == u64_le(b)[6]);
        assert(u64_le(a)[7] == u64_le(b)[7]);
        assert(a == b) by (bit_vector)
            requires
                ((a >> 0) & 0xff) as u8 == ((b >> 0) & 0xff) as u8,
                ((a >> 8) & 0xff) as u8 == ((b >> 8) & 0xff) as u8,
                ((a >> 16) & 0xff) as u8 == ((b >> 16) & 0xff) as u8,
                ((a >> 24) & 0xff) as u8 == ((b >> 24) & 0xff) as u8,
                ((a >> 32) & 0xff) as u8 == ((b >> 32) & 0xff) as u8,
                ((a >> 40) & 0xff) as u8 == ((b >> 40) & 0xff) as u8,
                ((a >> 48) & 0xff) as u8 == ((b >> 48) & 0xff) as u8,
                ((a >> 56) & 0xff) as u8 == ((b >> 56) & 0xff) as u8,
        ;
    }

    fn encode_state(&self, s: &u64) -> (r: Vec<u8>) {
        let n: u64 = *s;
        let mut r: Vec<u8> = Vec::new();
        let mut k: usize = 0;
        while k < 8
            invariant
                k <= 8,
                r@.len() == k,
                forall|j: int| 0 <= j < k ==> r@[j] == u64_le(n)[j],
            decreases 8 - k,
        {
            let shift: u64 = 8 * (k as u64);
            r.push(((n >> shift) & 0xff) as u8);
            k = k + 1;
        }
        proof {
            assert(r@ =~= u64_le(n));
        }
        r
    }

    fn decode_state(&self, bytes: &Vec<u8>) -> (r: Option<u64>) {
        if bytes.len() != 8 {
            proof {
                assert forall|sv: u64| self.encode_view(sv) != bytes@ by {
                    assert(u64_le(sv).len() == 8);
                }
            }
            return None;
        }
        let b0 = bytes[0];
        let b1 = bytes[1];
        let b2 = bytes[2];
        let b3 = bytes[3];
        let b4 = bytes[4];
        let b5 = bytes[5];
        let b6 = bytes[6];
        let b7 = bytes[7];
        let n: u64 = (b0 as u64) | ((b1 as u64) << 8) | ((b2 as u64) << 16) | ((b3 as u64) << 24)
            | ((b4 as u64) << 32) | ((b5 as u64) << 40) | ((b6 as u64) << 48) | ((b7 as u64)
            << 56);
        proof {
            assert(((n >> 0) & 0xff) as u8 == b0 && ((n >> 8) & 0xff) as u8 == b1 && ((n >> 16)
                & 0xff) as u8 == b2 && ((n >> 24) & 0xff) as u8 == b3 && ((n >> 32) & 0xff) as u8
                == b4 && ((n >> 40) & 0xff) as u8 == b5 && ((n >> 48) & 0xff) as u8 == b6 && ((n
                >> 56) & 0xff) as u8 == b7) by (bit_vector)
                requires
                    n == (b0 as u64) | ((b1 as u64) << 8) | ((b2 as u64) << 16) | ((b3 as u64)
                        << 24) | ((b4 as u64) << 32) | ((b5 as u64) << 40) | ((b6 as u64) << 48) | (
                    (b7 as u64) << 56),
            ;
            assert(u64_le(n) =~= bytes@);
        }
        Some(n)
    }
}

} // verus!
