//! The uniform per-key, per-window state machine that window-scoped operators
//! implement against, and the two concrete operators built on it:
//! reduce-window and fold-window.
//!
//! A logic instance is driven by `exec`: once with `Some(value)` for every
//! item routed into the window (in the order the windower delivers them), then
//! with exactly one final `None` when the window closes, at which point it
//! flushes its accumulator (or nothing, if the window never received an
//! item). `snapshot` is a pure read of the accumulated-so-far state, callable
//! after any `exec` call, and `build` reconstructs an equivalent instance from
//! such a snapshot.
//!
//! User-supplied accumulation logic is injected through the [`WindowCombine`]
//! strategy trait (or, for the concrete operators, through [`Combiner`] and
//! [`Folder`]); everything proved here holds for any implementation that
//! meets those traits' contracts.

use vstd::prelude::*;

verus! {

/// The capability set a window-scoped operator needs from user logic: how a
/// window's accumulator starts when its first value arrives, and how a later
/// value is merged into it. All contracts are stated over deep views, so the
/// value and accumulator types stay opaque to the framework.
pub trait WindowCombine: Sized {
    /// The incoming value type.
    type V: DeepView;

    /// The accumulator type.
    type Acc: DeepView;

    /// The accumulator a window for `key` starts with on its first value.
    spec fn init_view(&self, key: Seq<char>, first: <Self::V as DeepView>::V) -> <Self::Acc as DeepView>::V;

    /// The accumulator after merging one more value.
    spec fn merge_view(
        &self,
        acc: <Self::Acc as DeepView>::V,
        value: <Self::V as DeepView>::V,
    ) -> <Self::Acc as DeepView>::V;

    /// Start a window's accumulator from its first value.
    fn init(&self, key: &String, first: Self::V) -> (r: Self::Acc)
        ensures
            r.deep_view() == self.init_view(key@, first.deep_view()),
    ;

    /// Merge one more value into an accumulator.
    fn merge(&self, acc: Self::Acc, value: Self::V) -> (r: Self::Acc)
        ensures
            r.deep_view() == self.merge_view(acc.deep_view(), value.deep_view()),
    ;

    /// Copy an accumulator, for pure snapshot reads.
    fn clone_acc(&self, acc: &Self::Acc) -> (r: Self::Acc)
        ensures
            r.deep_view() == acc.deep_view(),
    ;
}

/// One `exec` transition at the specification level: from the current
/// accumulator state and the next call's argument to the new state and the
/// call's output. `Some(value)` accumulates and emits nothing; the closing
/// `None` emits the accumulator (if any) and leaves the instance empty.
pub open spec fn window_step<W: WindowCombine>(
    ops: W,
    state: Option<<W::Acc as DeepView>::V>,
    key: Seq<char>,
    next: Option<<W::V as DeepView>::V>,
) -> (Option<<W::Acc as DeepView>::V>, Option<<W::Acc as DeepView>::V>) {
    match next {
        Some(v) => (
            match state {
                Some(a) => Some(ops.merge_view(a, v)),
                None => Some(ops.init_view(key, v)),
            },
            None,
        ),
        None => (None, state),
    }
}

/// The outputs of a whole sequence of `exec` calls, run from a given state.
pub open spec fn window_run<W: WindowCombine>(
    ops: W,
    state: Option<<W::Acc as DeepView>::V>,
    key: Seq<char>,
    inputs: Seq<Option<<W::V as DeepView>::V>>,
) -> Seq<Option<<W::Acc as DeepView>::V>>
    decreases inputs.len(),
{
    if inputs.len() == 0 {
        Seq::<Option<<W::Acc as DeepView>::V>>::empty()
    } else {
        let (st, out) = window_step(ops, state, key, inputs[0]);
        seq![out] + window_run(ops, st, key, inputs.drop_first())
    }
}

/// What `WindowLogic::snapshot` captures of a state: the state itself, in
/// full — a snapshot reflects everything accumulated so far.
pub open spec fn snapshot_view<AV>(state: Option<AV>) -> Option<AV> {
    state
}

/// The state `WindowLogic::build` reconstructs from a resume snapshot: for
/// `Some`, exactly the captured state; for `None`, the fresh empty state.
pub open spec fn build_view<AV>(resume: Option<Option<AV>>) -> Option<AV> {
    match resume {
        Some(s) => s,
        None => None,
    }
}

/// The per-key, per-window state machine: an accumulator that is empty until
/// the window's first value arrives.
pub struct WindowLogic<W: WindowCombine> {
    acc: Option<W::Acc>,
}

impl<W: WindowCombine> WindowLogic<W> {
    /// The accumulated-so-far state, as a view.
    pub closed spec fn acc_view(&self) -> Option<<W::Acc as DeepView>::V> {
        self.acc.deep_view()
    }

    /// Construct an instance: fresh (no resume snapshot, empty accumulator)
    /// or reconstructed from a previously captured snapshot.
    pub fn build(resume: Option<Option<W::Acc>>) -> (r: WindowLogic<W>)
        ensures
            r.acc_view() == build_view(resume.deep_view()),
    {
        match resume {
            Some(s) => WindowLogic { acc: s },
            None => WindowLogic { acc: None },
        }
    }

    /// Process the next call: `Some(value)` for an item routed into the
    /// window, the final `None` when the window closes. Behaves exactly as
    /// [`window_step`] on the instance's state.
    pub fn exec(&mut self, ops: &W, key: &String, next: Option<W::V>) -> (out: Option<W::Acc>)
        ensures
            ({
                let (st, o) = window_step(*ops, old(self).acc_view(), key@, next.deep_view());
                final(self).acc_view() == st && out.deep_view() == o
            }),
    {
        match next {
            Some(v) => {
                let updated = match self.acc.take() {
                    Some(a) => ops.merge(a, v),
                    None => ops.init(key, v),
                };
                self.acc = Some(updated);
                None
            },
            None => self.acc.take(),
        }
    }

    /// A pure read of the accumulated-so-far state: captures the snapshot the
    /// instance can later be rebuilt from, without touching user logic state.
    pub fn snapshot(&self, ops: &W) -> (r: Option<W::Acc>)
        ensures
            r.deep_view() == snapshot_view(self.acc_view()),
    {
        match &self.acc {
            Some(a) => Some(ops.clone_acc(a)),
            None => None,
        }
    }
}

/// Snapshot/resume round trip: an instance rebuilt from another instance's
/// snapshot is behaviorally equivalent to it — any subsequent sequence of
/// `exec` calls produces identical outputs from both.
pub proof fn lemma_snapshot_resume_equivalent<W: WindowCombine>(
    ops: W,
    state: Option<<W::Acc as DeepView>::V>,
    key: Seq<char>,
    inputs: Seq<Option<<W::V as DeepView>::V>>,
)
    ensures
        window_run(ops, build_view(Some(snapshot_view(state))), key, inputs) == window_run(
            ops,
            state,
            key,
            inputs,
        ),
{
}

/// A window that receives zero items before closing produces no emission:
/// the closing `None` call on a fresh instance returns `None`.
pub proof fn lemma_empty_window_emits_nothing<W: WindowCombine>(ops: W, key: Seq<char>)
    ensures
        window_run(ops, None, key, seq![None]) == seq![None::<<W::Acc as DeepView>::V>],
{
    reveal_with_fuel(window_run, 2);
    let inputs = seq![None::<<W::V as DeepView>::V>];
    assert(inputs.drop_first() =~= Seq::<Option<<W::V as DeepView>::V>>::empty());
    assert(window_run(ops, None, key, inputs) =~= seq![None::<<W::Acc as DeepView>::V>]);
}

/// Repeated application of the merge function in delivery order, seeded by
/// the first value's initial accumulator; `None` when no value was delivered.
pub open spec fn combine_all<W: WindowCombine>(
    ops: W,
    key: Seq<char>,
    values: Seq<<W::V as DeepView>::V>,
) -> Option<<W::Acc as DeepView>::V> {
    if values.len() == 0 {
        None
    } else {
        Some(fold_values(ops, ops.init_view(key, values[0]), values.drop_first()))
    }
}

/// Fold the remaining values into an accumulator, left to right.
pub open spec fn fold_values<W: WindowCombine>(
    ops: W,
    acc: <W::Acc as DeepView>::V,
    values: Seq<<W::V as DeepView>::V>,
) -> <W::Acc as DeepView>::V
    decreases values.len(),
{
    if values.len() == 0 {
        acc
    } else {
        fold_values(ops, ops.merge_view(acc, values[0]), values.drop_first())
    }
}

/// Folding one more value merges it into the fold of the earlier ones.
pub proof fn lemma_fold_values_push<W: WindowCombine>(
    ops: W,
    acc: <W::Acc as DeepView>::V,
    values: Seq<<W::V as DeepView>::V>,
    value: <W::V as DeepView>::V,
)
    ensures
        fold_values(ops, acc, values.push(value)) == ops.merge_view(
            fold_values(ops, acc, values),
            value,
        ),
    decreases values.len(),
{
    if values.len() == 0 {
        assert(values.push(value)[0] == value);
        assert(values.push(value).drop_first() =~= Seq::<<W::V as DeepView>::V>::empty());
        reveal_with_fuel(fold_values, 3);
    } else {
        assert(values.push(value)[0] == values[0]);
        assert(values.push(value).drop_first() =~= values.drop_first().push(value));
        lemma_fold_values_push(ops, ops.merge_view(acc, values[0]), values.drop_first(), value);
    }
}

/// Delivering one more value to a window merges it into the repeated
/// application over the earlier values: `combine_all` grows one merge at a
/// time, in delivery order.
pub proof fn lemma_combine_all_push<W: WindowCombine>(
    ops: W,
    key: Seq<char>,
    values: Seq<<W::V as DeepView>::V>,
    value: <W::V as DeepView>::V,
)
    requires
        values.len() > 0,
    ensures
        combine_all(ops, key, values.push(value)) == Some(
            ops.merge_view(combine_all(ops, key, values)->Some_0, value),
        ),
{
    assert(values.push(value)[0] == values[0]);
    assert(values.push(value).drop_first() =~= values.drop_first().push(value));
    lemma_fold_values_push(ops, ops.init_view(key, values[0]), values.drop_first(), value);
}

/// Helper: from an already-started accumulator, feeding the remaining values
/// and then the closing `None` emits nothing until the close, which emits the
/// left-to-right fold.
proof fn lemma_run_folds_from<W: WindowCombine>(
    ops: W,
    acc: <W::Acc as DeepView>::V,
    key: Seq<char>,
    values: Seq<<W::V as DeepView>::V>,
)
    ensures
        ({
            let inputs = values.map(|i: int, v: <W::V as DeepView>::V| Some(v)).push(None);
            let outs = window_run(ops, Some(acc), key, inputs);
            outs.len() == values.len() + 1 && (forall|i: int|
                0 <= i < values.len() ==> outs[i] == None::<<W::Acc as DeepView>::V>)
                && outs.last() == Some(fold_values(ops, acc, values))
        }),
    decreases values.len(),
{
    reveal_with_fuel(window_run, 2);
    let inputs = values.map(|i: int, v: <W::V as DeepView>::V| Some(v)).push(None);
    if values.len() == 0 {
        assert(inputs =~= seq![None::<<W::V as DeepView>::V>]);
        assert(inputs.drop_first() =~= Seq::<Option<<W::V as DeepView>::V>>::empty());
        assert(window_run(ops, Some(acc), key, inputs) =~= seq![
            Some(fold_values(ops, acc, values)),
        ]);
    } else {
        let acc2 = ops.merge_view(acc, values[0]);
        lemma_run_folds_from(ops, acc2, key, values.drop_first());
        let tail_inputs = values.drop_first().map(
            |i: int, v: <W::V as DeepView>::V| Some(v),
        ).push(None);
        assert(inputs.drop_first() =~= tail_inputs);
        assert(inputs[0] == Some(values[0]));
        let outs = window_run(ops, Some(acc), key, inputs);
        let tail_outs = window_run(ops, Some(acc2), key, tail_inputs);
        assert(outs =~= seq![None::<<W::Acc as DeepView>::V>] + tail_outs);
        assert(fold_values(ops, acc, values) == fold_values(ops, acc2, values.drop_first()));
        assert(outs.last() == tail_outs.last());
        assert forall|i: int| 0 <= i < values.len() implies outs[i] == None::<
            <W::Acc as DeepView>::V,
        > by {
            if i > 0 {
                assert(outs[i] == tail_outs[i - 1]);
            }
        }
    }
}

/// Window-scoped accumulation law: running a fresh instance over a window's
/// values in delivery order and then closing it emits nothing until the
/// close, and the close emits exactly the repeated application of the merge
/// function in that order (`None` when the window received no items). With a
/// single value the result is that value's initial accumulator — the merge
/// function is never applied.
pub proof fn lemma_window_run_folds<W: WindowCombine>(
    ops: W,
    key: Seq<char>,
    values: Seq<<W::V as DeepView>::V>,
)
    ensures
        ({
            let inputs = values.map(|i: int, v: <W::V as DeepView>::V| Some(v)).push(None);
            let outs = window_run(ops, None, key, inputs);
            outs.len() == values.len() + 1 && (forall|i: int|
                0 <= i < values.len() ==> outs[i] == None::<<W::Acc as DeepView>::V>)
                && outs.last() == combine_all(ops, key, values)
        }),
{
    reveal_with_fuel(window_run, 2);
    let inputs = values.map(|i: int, v: <W::V as DeepView>::V| Some(v)).push(None);
    if values.len() == 0 {
        assert(inputs =~= seq![None::<<W::V as DeepView>::V>]);
        assert(inputs.drop_first() =~= Seq::<Option<<W::V as DeepView>::V>>::empty());
        assert(window_run(ops, None, key, inputs) =~= seq![None::<<W::Acc as DeepView>::V>]);
    } else {
        let acc0 = ops.init_view(key, values[0]);
        lemma_run_folds_from(ops, acc0, key, values.drop_first());
        let tail_inputs = values.drop_first().map(
            |i: int, v: <W::V as DeepView>::V| Some(v),
        ).push(None);
        assert(inputs.drop_first() =~= tail_inputs);
        assert(inputs[0] == Some(values[0]));
        let outs = window_run(ops, None, key, inputs);
        let tail_outs = window_run(ops, Some(acc0), key, tail_inputs);
        assert(outs =~= seq![None::<<W::Acc as DeepView>::V>] + tail_outs);
        assert(outs.last() == tail_outs.last());
        assert forall|i: int| 0 <= i < values.len() implies outs[i] == None::<
            <W::Acc as DeepView>::V,
        > by {
            if i > 0 {
                assert(outs[i] == tail_outs[i - 1]);
            }
        }
    }
}

/// The capability set of the reduce-window operator: a single combine
/// function over values. The accumulator is the value type itself; the first
/// value seen becomes the accumulator unmodified.
pub trait Combiner: Sized {
    /// The value (and accumulator) type.
    type V: DeepView;

    /// The combined value.
    spec fn combine_view(
        &self,
        acc: <Self::V as DeepView>::V,
        value: <Self::V as DeepView>::V,
    ) -> <Self::V as DeepView>::V;

    /// Combine a new value into the accumulator.
    fn combine(&self, acc: Self::V, value: Self::V) -> (r: Self::V)
        ensures
            r.deep_view() == self.combine_view(acc.deep_view(), value.deep_view()),
    ;

    /// Copy a value, for pure snapshot reads.
    fn clone_value(&self, v: &Self::V) -> (r: Self::V)
        ensures
            r.deep_view() == v.deep_view(),
    ;
}

/// Reduce-window: combine the values of a window pairwise; the accumulator is
/// initially the first value seen, and the combine function is not invoked
/// for it.
pub struct ReduceWindowOps<C: Combiner> {
    pub combiner: C,
}

impl<C: Combiner> WindowCombine for ReduceWindowOps<C> {
    type V = C::V;

    type Acc = C::V;

    open spec fn init_view(&self, key: Seq<char>, first: <C::V as DeepView>::V) -> <C::V as DeepView>::V {
        first
    }

    open spec fn merge_view(
        &self,
        acc: <C::V as DeepView>::V,
        value: <C::V as DeepView>::V,
    ) -> <C::V as DeepView>::V {
        self.combiner.combine_view(acc, value)
    }

    fn init(&self, key: &String, first: C::V) -> (r: C::V) {
        first
    }

    fn merge(&self, acc: C::V, value: C::V) -> (r: C::V) {
        self.combiner.combine(acc, value)
    }

    fn clone_acc(&self, acc: &C::V) -> (r: C::V) {
        self.combiner.clone_value(acc)
    }
}

/// Reduce-window's single-value guarantee, for any combiner whatsoever: a
/// window that saw exactly one value emits that value unmodified on close —
/// the combine function cannot influence the result, so it is never applied.
pub proof fn lemma_reduce_window_single_value<C: Combiner>(
    combiner: C,
    key: Seq<char>,
    value: <C::V as DeepView>::V,
)
    ensures
        ({
            let ops = (ReduceWindowOps { combiner });
            let outs = window_run(ops, None, key, seq![Some(value), None]);
            outs == seq![None::<<C::V as DeepView>::V>, Some(value)]
        }),
{
    let ops = (ReduceWindowOps { combiner });
    lemma_window_run_folds::<ReduceWindowOps<C>>(ops, key, seq![value]);
    let values = seq![value];
    let inputs = values.map(|i: int, v: <C::V as DeepView>::V| Some(v)).push(None);
    assert(inputs =~= seq![Some(value), None::<<C::V as DeepView>::V>]);
    assert(values.drop_first() =~= Seq::<<C::V as DeepView>::V>::empty());
    let outs = window_run(ops, None, key, inputs);
    assert(outs.last() == Some(value));
    assert(outs =~= seq![None::<<C::V as DeepView>::V>, Some(value)]);
}

/// The capability set of the fold-window operator: a builder producing the
/// initial accumulator for a key, and a fold merging one value into it. The
/// first value is folded into the built accumulator (unlike reduce-window,
/// where it becomes the accumulator itself).
pub trait Folder: Sized {
    /// The incoming value type.
    type V: DeepView;

    /// The accumulator type.
    type Acc: DeepView;

    /// The initial accumulator for a key.
    spec fn build_view(&self, key: Seq<char>) -> <Self::Acc as DeepView>::V;

    /// The accumulator after folding in one value.
    spec fn fold_view(
        &self,
        acc: <Self::Acc as DeepView>::V,
        value: <Self::V as DeepView>::V,
    ) -> <Self::Acc as DeepView>::V;

    /// Produce the initial accumulator for a key.
    fn build(&self, key: &String) -> (r: Self::Acc)
        ensures
            r.deep_view() == self.build_view(key@),
    ;

    /// Fold one value into the accumulator.
    fn fold(&self, acc: Self::Acc, value: Self::V) -> (r: Self::Acc)
        ensures
            r.deep_view() == self.fold_view(acc.deep_view(), value.deep_view()),
    ;

    /// Copy an accumulator, for pure snapshot reads.
    fn clone_acc(&self, acc: &Self::Acc) -> (r: Self::Acc)
        ensures
            r.deep_view() == acc.deep_view(),
    ;
}

/// Fold-window: like reduce-window, but the initial accumulator is produced
/// by a user-supplied builder keyed by the window's key, which allows
/// heterogeneous initial state such as empty counters.
pub struct FoldWindowOps<F: Folder> {
    pub folder: F,
}

impl<F: Folder> WindowCombine for FoldWindowOps<F> {
    type V = F::V;

    type Acc = F::Acc;

    open spec fn init_view(&self, key: Seq<char>, first: <F::V as DeepView>::V) -> <F::Acc as DeepView>::V {
        self.folder.fold_view(self.folder.build_view(key), first)
    }

    open spec fn merge_view(
        &self,
        acc: <F::Acc as DeepView>::V,
        value: <F::V as DeepView>::V,
    ) -> <F::Acc as DeepView>::V {
        self.folder.fold_view(acc, value)
    }

    fn init(&self, key: &String, first: F::V) -> (r: F::Acc) {
        let acc = self.folder.build(key);
        self.folder.fold(acc, first)
    }

    fn merge(&self, acc: F::Acc, value: F::V) -> (r: F::Acc) {
        self.folder.fold(acc, value)
    }

    fn clone_acc(&self, acc: &F::Acc) -> (r: F::Acc) {
        self.folder.clone_acc(acc)
    }
}

} // verus!
