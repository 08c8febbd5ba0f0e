//! The stateful-map operator: a one-to-one transformation of values with
//! persistent per-key state and an explicit forget signal.
//!
//! A user-supplied builder produces the initial state the first time a key is
//! seen; a mapper consumes `(state, value)` and returns the updated state (or
//! none) together with an output, which is emitted unconditionally. Returning
//! no updated state forgets the key's state immediately: the next item for
//! that key invokes the builder again. This is the operator's designed way to
//! bound memory over an unbounded key space.

use vstd::prelude::*;

use crate::store::KeyedStore;

verus! {

/// The capability set of the stateful-map operator: a state builder and a
/// mapper, both supplied by the user and specified over deep views so the
/// state, value and output types stay opaque to the framework.
pub trait StatefulMapOps: Sized {
    /// The per-key state type.
    type State: DeepView;

    /// The incoming value type.
    type V: DeepView;

    /// The outgoing value type.
    type Out: DeepView;

    /// The initial state for a key.
    spec fn build_view(&self, key: Seq<char>) -> <Self::State as DeepView>::V;

    /// The updated state (`None` to forget the key) and the emitted output.
    spec fn map_view(
        &self,
        state: <Self::State as DeepView>::V,
        value: <Self::V as DeepView>::V,
    ) -> (Option<<Self::State as DeepView>::V>, <Self::Out as DeepView>::V);

    /// Produce the initial state for a key.
    fn build(&self, key: &String) -> (r: Self::State)
        ensures
            r.deep_view() == self.build_view(key@),
    ;

    /// Transform one value with the key's state.
    fn mapper(&self, state: Self::State, value: Self::V) -> (r: (Option<Self::State>, Self::Out))
        ensures
            r.deep_view() == self.map_view(state.deep_view(), value.deep_view()),
    ;
}

/// One item's effect on the stateful-map operator, at the specification
/// level: the updated per-key state map and the unconditionally emitted
/// output. The mapper sees the resident state, or the builder's fresh state
/// when the key has none.
pub open spec fn stateful_map_step<M: StatefulMapOps>(
    ops: M,
    state: Map<Seq<char>, <M::State as DeepView>::V>,
    key: Seq<char>,
    value: <M::V as DeepView>::V,
) -> (Map<Seq<char>, <M::State as DeepView>::V>, <M::Out as DeepView>::V) {
    let s0 = if state.contains_key(key) {
        state[key]
    } else {
        ops.build_view(key)
    };
    let (s2, out) = ops.map_view(s0, value);
    (
        match s2 {
            Some(s) => state.insert(key, s),
            None => state.remove(key),
        },
        out,
    )
}

/// The stateful-map operator: user logic plus the per-key state store.
pub struct StatefulMap<M: StatefulMapOps> {
    ops: M,
    store: KeyedStore<M::State>,
}

impl<M: StatefulMapOps> StatefulMap<M> {
    /// The injected user logic; it never changes.
    pub closed spec fn ops(&self) -> M {
        self.ops
    }

    /// The resident per-key states, as a map of views.
    pub closed spec fn state(&self) -> Map<Seq<char>, <M::State as DeepView>::V> {
        self.store@
    }

    /// The per-key store never holds a key twice.
    pub closed spec fn wf(&self) -> bool {
        self.store.wf()
    }

    /// A fresh operator with no resident state.
    pub fn new(ops: M) -> (r: StatefulMap<M>)
        ensures
            r.wf(),
            r.ops() == ops,
            r.state() == Map::<Seq<char>, <M::State as DeepView>::V>::empty(),
    {
        StatefulMap { ops, store: KeyedStore::new() }
    }

    /// Process one `(key, value)` item: map the value with the key's state
    /// (built fresh if the key has none), emit the output unconditionally,
    /// and update or forget the key's state — exactly as
    /// [`stateful_map_step`] says.
    pub fn process(&mut self, key: String, value: M::V) -> (out: M::Out)
        requires
            old(self).wf(),
        ensures
            final(self).wf(),
            final(self).ops() == old(self).ops(),
            ({
                let (st, o) = stateful_map_step(
                    old(self).ops(),
                    old(self).state(),
                    key@,
                    value.deep_view(),
                );
                final(self).state() == st && out.deep_view() == o
            }),
    {
        let s0 = match self.store.take(&key) {
            Some(s) => s,
            None => self.ops.build(&key),
        };
        let (s2, out) = self.ops.mapper(s0, value);
        match s2 {
            Some(s) => {
                proof {
                    if old(self).state().contains_key(key@) {
                        assert(old(self).state().remove(key@).insert(key@, s.deep_view()) =~= old(
                            self,
                        ).state().insert(key@, s.deep_view()));
                    }
                }
                self.store.insert(key, s);
            },
            None => {
                proof {
                    if !old(self).state().contains_key(key@) {
                        assert(old(self).state().remove(key@) =~= old(self).state());
                    }
                }
            },
        }
        out
    }

    /// How many keys hold state, as a specification value.
    pub closed spec fn resident(&self) -> nat {
        self.store.entries().len()
    }

    /// How many keys currently hold state.
    pub fn resident_keys(&self) -> (r: usize)
        ensures
            r == self.resident(),
    {
        self.store.len()
    }

    /// A borrow of the per-key state store, for snapshot capture.
    pub fn store(&self) -> (r: &KeyedStore<M::State>)
        ensures
            r@ == self.state(),
            r.wf() == self.wf(),
    {
        &self.store
    }

    /// Resume an operator from recovered per-key state, replacing any
    /// resident state wholesale.
    pub fn with_store(ops: M, store: KeyedStore<M::State>) -> (r: StatefulMap<M>)
        requires
            store.wf(),
        ensures
            r.wf(),
            r.ops() == ops,
            r.state() == store@,
    {
        StatefulMap { ops, store }
    }
}

/// Stateful-map forget law: when the mapper returns no updated state for a
/// key, the state is fully forgotten — nothing for the key persists, and the
/// next item for that same key is mapped against the builder's fresh state
/// again, not a remembered or merely reset one.
pub proof fn lemma_forget_then_rebuild<M: StatefulMapOps>(
    ops: M,
    state: Map<Seq<char>, <M::State as DeepView>::V>,
    key: Seq<char>,
    first: <M::V as DeepView>::V,
    next: <M::V as DeepView>::V,
)
    requires
        ({
            let s0 = if state.contains_key(key) {
                state[key]
            } else {
                ops.build_view(key)
            };
            ops.map_view(s0, first).0 is None
        }),
    ensures
        !stateful_map_step(ops, state, key, first).0.contains_key(key),
        ({
            let st1 = stateful_map_step(ops, state, key, first).0;
            stateful_map_step(ops, st1, key, next).1 == ops.map_view(ops.build_view(key), next).1
        }),
{
}

} // verus!
