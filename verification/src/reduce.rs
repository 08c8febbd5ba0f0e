//! The unbounded reduce operator: per key, accumulate values until a
//! completion predicate holds, then emit the pair and discard the key's state.
//!
//! Not window-scoped: the accumulator lives across an unbounded item sequence.
//! The accumulator is initially the first value seen for a key (the combine
//! function is not invoked for it); after every update the completion
//! predicate decides whether to emit `(key, accumulator)` and forget the
//! per-key state, or to keep accumulating. Values arriving for a key after an
//! emission start a fresh accumulator.

use vstd::prelude::*;

use crate::store::KeyedStore;

verus! {

/// The capability set of the reduce operator: a combine function and a
/// completion predicate, both supplied by the user and specified over deep
/// views so the value type stays opaque to the framework.
pub trait Reducer: Sized {
    /// The value (and accumulator) type.
    type V: DeepView;

    /// The combined accumulator.
    spec fn combine_view(
        &self,
        acc: <Self::V as DeepView>::V,
        value: <Self::V as DeepView>::V,
    ) -> <Self::V as DeepView>::V;

    /// Whether an accumulator is complete and should be emitted.
    spec fn is_complete_view(&self, acc: <Self::V as DeepView>::V) -> bool;

    /// Combine a new value into the accumulator.
    fn combine(&self, acc: Self::V, value: Self::V) -> (r: Self::V)
        ensures
            r.deep_view() == self.combine_view(acc.deep_view(), value.deep_view()),
    ;

    /// Decide whether the accumulator is complete.
    fn is_complete(&self, acc: &Self::V) -> (r: bool)
        ensures
            r == self.is_complete_view(acc.deep_view()),
    ;
}

/// One item's effect on the reduce operator, at the specification level: the
/// updated per-key state map and the emission, if any. The accumulator is the
/// first value itself when the key has no resident state; the completion
/// predicate is evaluated after every update.
pub open spec fn reduce_step<R: Reducer>(
    reducer: R,
    state: Map<Seq<char>, <R::V as DeepView>::V>,
    key: Seq<char>,
    value: <R::V as DeepView>::V,
) -> (Map<Seq<char>, <R::V as DeepView>::V>, Option<(Seq<char>, <R::V as DeepView>::V)>) {
    let acc = if state.contains_key(key) {
        reducer.combine_view(state[key], value)
    } else {
        value
    };
    if reducer.is_complete_view(acc) {
        (state.remove(key), Some((key, acc)))
    } else {
        (state.insert(key, acc), None)
    }
}

/// The reduce operator: user logic plus the per-key accumulator store.
pub struct Reduce<R: Reducer> {
    reducer: R,
    store: KeyedStore<R::V>,
}

impl<R: Reducer> Reduce<R> {
    /// The injected user logic; it never changes.
    pub closed spec fn ops(&self) -> R {
        self.reducer
    }

    /// The resident per-key accumulators, as a map of views.
    pub closed spec fn state(&self) -> Map<Seq<char>, <R::V as DeepView>::V> {
        self.store@
    }

    /// The per-key store never holds a key twice.
    pub closed spec fn wf(&self) -> bool {
        self.store.wf()
    }

    /// A fresh operator with no resident state.
    pub fn new(reducer: R) -> (r: Reduce<R>)
        ensures
            r.wf(),
            r.ops() == reducer,
            r.state() == Map::<Seq<char>, <R::V as DeepView>::V>::empty(),
    {
        Reduce { reducer, store: KeyedStore::new() }
    }

    /// Process one `(key, value)` item: combine it into the key's accumulator
    /// (or start one), then either emit `(key, accumulator)` and forget the
    /// key's state, or keep accumulating — exactly as [`reduce_step`] says.
    pub fn process(&mut self, key: String, value: R::V) -> (out: Option<(String, R::V)>)
        requires
            old(self).wf(),
        ensures
            final(self).wf(),
            final(self).ops() == old(self).ops(),
            ({
                let (st, o) = reduce_step(old(self).ops(), old(self).state(), key@, value.deep_view());
                final(self).state() == st && out.deep_view() == o
            }),
    {
        let acc = match self.store.take(&key) {
            Some(a) => self.reducer.combine(a, value),
            None => value,
        };
        if self.reducer.is_complete(&acc) {
            proof {
                if !old(self).state().contains_key(key@) {
                    assert(old(self).state().remove(key@) =~= old(self).state());
                }
            }
            Some((key, acc))
        } else {
            proof {
                if old(self).state().contains_key(key@) {
                    assert(old(self).state().remove(key@).insert(key@, acc.deep_view()) =~= old(
                        self,
                    ).state().insert(key@, acc.deep_view()));
                }
            }
            self.store.insert(key, acc);
            None
        }
    }

    /// How many keys hold state, as a specification value.
    pub closed spec fn resident(&self) -> nat {
        self.store.entries().len()
    }

    /// How many keys currently hold state.
    pub fn resident_keys(&self) -> (r: usize)
        ensures
            r == self.resident(),
    {
        self.store.len()
    }

    /// A borrow of the per-key accumulator store, for snapshot capture.
    pub fn store(&self) -> (r: &KeyedStore<R::V>)
        ensures
            r@ == self.state(),
            r.wf() == self.wf(),
    {
        &self.store
    }

    /// Resume an operator from recovered per-key state, replacing any
    /// resident state wholesale.
    pub fn with_store(reducer: R, store: KeyedStore<R::V>) -> (r: Reduce<R>)
        requires
            store.wf(),
        ensures
            r.wf(),
            r.ops() == reducer,
            r.state() == store@,
    {
        Reduce { reducer, store }
    }
}

/// Reduce completion law: when the completion predicate already holds of the
/// first value seen for a key, that pair is emitted at once and no state for
/// the key persists to the next value — which therefore starts a fresh
/// accumulator.
pub proof fn lemma_complete_on_first_value<R: Reducer>(
    reducer: R,
    state: Map<Seq<char>, <R::V as DeepView>::V>,
    key: Seq<char>,
    value: <R::V as DeepView>::V,
)
    requires
        !state.contains_key(key),
        reducer.is_complete_view(value),
    ensures
        reduce_step(reducer, state, key, value).1 == Some((key, value)),
        !reduce_step(reducer, state, key, value).0.contains_key(key),
        reduce_step(reducer, state, key, value).0 == state,
{
    assert(state.remove(key) =~= state);
}

} // verus!
