//! The windowed operator: routes each keyed item through the clock and the
//! windower into the per-(key, window) accumulator it belongs to, and emits
//! `(key, accumulator)` exactly once per window, when the watermark closes it.
//!
//! A window's accumulator slot is created by its first item and removed by
//! its closure, so a window that received no items never emits. An item whose
//! timestamp resolves only to an already-closed window (or to no window at
//! all) is late: it is dropped and reported to the caller as a diagnostic,
//! never merged into a closed window's already-emitted result.

use vstd::prelude::*;

use crate::clock::{sat_u64, time_max, Clock};
use crate::logic::{combine_all, WindowCombine};
use crate::windower::TumblingWindower;

verus! {

/// The report handed back for a dropped late item.
pub struct LateItem {
    /// The key the item carried.
    pub key: String,
    /// The logical time the item was stamped with.
    pub timestamp: u64,
}

/// Is a slot's window closed under this watermark?
pub open spec fn closed_pred<AV>(wr: TumblingWindower, wm: u64) -> spec_fn((Seq<char>, u64, AV)) -> bool {
    |s: (Seq<char>, u64, AV)| wr.is_closed(s.1, wm)
}

/// Is a slot's window still open under this watermark?
pub open spec fn open_pred<AV>(wr: TumblingWindower, wm: u64) -> spec_fn((Seq<char>, u64, AV)) -> bool {
    |s: (Seq<char>, u64, AV)| !wr.is_closed(s.1, wm)
}

/// The slots that survive an advance of the watermark, in their original
/// order.
pub open spec fn open_slots<AV>(
    wr: TumblingWindower,
    wm: u64,
    slots: Seq<(Seq<char>, u64, AV)>,
) -> Seq<(Seq<char>, u64, AV)> {
    slots.filter(open_pred(wr, wm))
}

/// A slot reduced to its emission: the key and the accumulator.
pub open spec fn emission_of<AV>() -> spec_fn(int, (Seq<char>, u64, AV)) -> (Seq<char>, AV) {
    |i: int, s: (Seq<char>, u64, AV)| (s.0, s.2)
}

/// What an advance of the watermark emits: every newly closed slot, reduced
/// to `(key, accumulator)`, in slot order.
pub open spec fn closed_emissions<AV>(
    wr: TumblingWindower,
    wm: u64,
    slots: Seq<(Seq<char>, u64, AV)>,
) -> Seq<(Seq<char>, AV)> {
    slots.filter(closed_pred(wr, wm)).map(emission_of())
}

/// No two slots serve the same (key, window) pair.
pub open spec fn distinct_slots<AV>(slots: Seq<(Seq<char>, u64, AV)>) -> bool {
    forall|i: int, j: int|
        0 <= i < j < slots.len() ==> !(slots[i].0 == slots[j].0 && slots[i].1 == slots[j].1)
}

/// An accepted item's effect on the slots: merge into the (key, window)
/// slot when one exists, otherwise append a fresh slot seeded by the item.
pub open spec fn upsert_slot<W: WindowCombine>(
    ops: W,
    slots: Seq<(Seq<char>, u64, <W::Acc as DeepView>::V)>,
    key: Seq<char>,
    window: u64,
    value: <W::V as DeepView>::V,
) -> Seq<(Seq<char>, u64, <W::Acc as DeepView>::V)> {
    if exists|i: int| 0 <= i < slots.len() && slots[i].0 == key && slots[i].1 == window {
        let i = choose|i: int| 0 <= i < slots.len() && slots[i].0 == key && slots[i].1 == window;
        slots.update(i, (key, window, ops.merge_view(slots[i].2, value)))
    } else {
        slots.push((key, window, ops.init_view(key, value)))
    }
}

/// One per-(key, window) accumulator: the state of that window's logic
/// instance, resident from the window's first item until its closure.
struct WindowSlot<W: WindowCombine> {
    key: String,
    window: u64,
    acc: W::Acc,
}

/// The abstraction of a slot vector: (key, window, accumulator view) triples
/// in storage order.
spec fn slots_of<W: WindowCombine>(v: Seq<WindowSlot<W>>) -> Seq<
    (Seq<char>, u64, <W::Acc as DeepView>::V),
> {
    v.map(|k: int, s: WindowSlot<W>| (s.key@, s.window, s.acc.deep_view()))
}

/// A window-scoped operator over one stateful step: clock, windower, and the
/// resident per-(key, window) accumulators. Generic over the accumulation
/// strategy, so it serves both reduce-window and fold-window.
pub struct WindowedOperator<W: WindowCombine> {
    ops: W,
    clock: Clock,
    windower: TumblingWindower,
    slots: Vec<WindowSlot<W>>,
}

impl<W: WindowCombine> WindowedOperator<W> {
    /// The injected user logic; it never changes.
    pub closed spec fn ops(&self) -> W {
        self.ops
    }

    /// The operator's clock.
    pub closed spec fn clock(&self) -> Clock {
        self.clock
    }

    /// The operator's windower; it never changes.
    pub closed spec fn windower(&self) -> TumblingWindower {
        self.windower
    }

    /// The resident slots, in creation order, as (key, window, accumulator
    /// view) triples.
    pub closed spec fn slots_view(&self) -> Seq<(Seq<char>, u64, <W::Acc as DeepView>::V)> {
        slots_of(self.slots@)
    }

    /// Well-formed: a positive window length, no (key, window) pair resident
    /// twice, and no resident slot whose window the watermark has already
    /// closed.
    pub open spec fn wf(&self) -> bool {
        &&& self.windower().length() >= 1
        &&& distinct_slots(self.slots_view())
        &&& forall|i: int|
            0 <= i < self.slots_view().len() ==> !self.windower().is_closed(
                (#[trigger] self.slots_view()[i]).1,
                self.clock().watermark(),
            )
    }

    /// A fresh operator with no resident windows.
    pub fn new(ops: W, clock: Clock, windower: TumblingWindower) -> (r: WindowedOperator<W>)
        requires
            windower.length() >= 1,
        ensures
            r.wf(),
            r.ops() == ops,
            r.clock() == clock,
            r.windower() == windower,
            r.slots_view() == Seq::<(Seq<char>, u64, <W::Acc as DeepView>::V)>::empty(),
    {
        let r = WindowedOperator { ops, clock, windower, slots: Vec::new() };
        proof {
            assert(r.slots_view() =~= Seq::<(Seq<char>, u64, <W::Acc as DeepView>::V)>::empty());
        }
        r
    }

    /// The index of the slot for this (key, window) pair, if resident.
    fn find_slot(&self, key: &String, window: u64) -> (r: Option<usize>)
        ensures
            match r {
                Some(i) => 0 <= i < self.slots_view().len() && self.slots_view()[i as int].0
                    == key@ && self.slots_view()[i as int].1 == window,
                None => forall|i: int|
                    #![trigger self.slots_view()[i]]
                    0 <= i < self.slots_view().len() ==> !(self.slots_view()[i].0 == key@
                        && self.slots_view()[i].1 == window),
            },
    {
        let mut i: usize = 0;
        while i < self.slots.len()
            invariant
                i <= self.slots@.len(),
                forall|j: int|
                    #![trigger self.slots_view()[j]]
                    0 <= j < i ==> !(self.slots_view()[j].0 == key@ && self.slots_view()[j].1
                        == window),
            decreases self.slots@.len() - i,
        {
            if self.slots[i].window == window && self.slots[i].key == *key {
                return Some(i);
            }
            i = i + 1;
        }
        None
    }

    /// Merge an accepted item into its slot, or create the slot.
    fn upsert(&mut self, key: String, window: u64, value: W::V)
        requires
            distinct_slots(old(self).slots_view()),
        ensures
            final(self).ops() == old(self).ops(),
            final(self).clock() == old(self).clock(),
            final(self).windower() == old(self).windower(),
            final(self).slots_view() == upsert_slot(
                old(self).ops(),
                old(self).slots_view(),
                key@,
                window,
                value.deep_view(),
            ),
            distinct_slots(final(self).slots_view()),
    {
        let ghost sv = self.slots_view();
        match self.find_slot(&key, window) {
            Some(i) => {
                proof {
                    assert(0 <= i < sv.len() && sv[i as int].0 == key@ && sv[i as int].1
                        == window);
                    let j = choose|j: int|
                        0 <= j < sv.len() && sv[j].0 == key@ && sv[j].1 == window;
                    assert(j == i);
                }
                let slot = self.slots.remove(i);
                let merged = self.ops.merge(slot.acc, value);
                self.slots.insert(i, WindowSlot { key, window, acc: merged });
                proof {
                    assert(self.slots_view() =~= sv.update(
                        i as int,
                        (key@, window, old(self).ops().merge_view(sv[i as int].2, value.deep_view())),
                    ));
                }
            },
            None => {
                let acc = self.ops.init(&key, value);
                self.slots.push(WindowSlot { key, window, acc });
                proof {
                    assert(self.slots_view() =~= sv.push(
                        (key@, window, old(self).ops().init_view(key@, value.deep_view())),
                    ));
                }
            },
        }
    }

    /// Remove every slot the watermark has closed and emit it as
    /// `(key, accumulator)`, in slot order.
    fn sweep(&mut self, watermark: u64) -> (emitted: Vec<(String, W::Acc)>)
        requires
            old(self).windower().length() >= 1,
            distinct_slots(old(self).slots_view()),
        ensures
            final(self).ops() == old(self).ops(),
            final(self).clock() == old(self).clock(),
            final(self).windower() == old(self).windower(),
            final(self).slots_view() == open_slots(
                old(self).windower(),
                watermark,
                old(self).slots_view(),
            ),
            emitted.deep_view() == closed_emissions(
                old(self).windower(),
                watermark,
                old(self).slots_view(),
            ),
            distinct_slots(final(self).slots_view()),
    {
        let ghost sv = old(self).slots_view();
        let ghost wr = old(self).windower();
        let mut work: Vec<WindowSlot<W>> = Vec::new();
        core::mem::swap(&mut work, &mut self.slots);
        let mut emitted: Vec<(String, W::Acc)> = Vec::new();
        let mut kept: Vec<WindowSlot<W>> = Vec::new();
        proof {
            assert(slots_of(work@) =~= sv);
            assert(Seq::<(Seq<char>, u64, <W::Acc as DeepView>::V)>::empty().filter(
                open_pred(wr, watermark),
            ) =~= Seq::<(Seq<char>, u64, <W::Acc as DeepView>::V)>::empty()) by {
                reveal(Seq::filter);
            }
            assert(Seq::<(Seq<char>, u64, <W::Acc as DeepView>::V)>::empty().filter(
                closed_pred(wr, watermark),
            ) =~= Seq::<(Seq<char>, u64, <W::Acc as DeepView>::V)>::empty()) by {
                reveal(Seq::filter);
            }
            assert(sv.take(0) =~= Seq::<(Seq<char>, u64, <W::Acc as DeepView>::V)>::empty());
            assert(slots_of(kept@) =~= Seq::<(Seq<char>, u64, <W::Acc as DeepView>::V)>::empty());
            assert(emitted.deep_view() =~= Seq::<(Seq<char>, <W::Acc as DeepView>::V)>::empty());
        }
        let ghost mut i: int = 0;
        let ghost n = sv.len();
        while work.len() > 0
            invariant
                0 <= i <= n,
                slots_of(work@) =~= sv.subrange(i, n as int),
                slots_of(kept@) == sv.take(i).filter(open_pred(wr, watermark)),
                emitted.deep_view() == sv.take(i).filter(closed_pred(wr, watermark)).map(
                    emission_of(),
                ),
                wr.length() >= 1,
                n == sv.len(),
                i == n - work@.len(),
                self.windower() == wr,
                self.ops() == old(self).ops(),
                self.clock() == old(self).clock(),
            decreases work@.len(),
        {
            let ghost prev_work = work@;
            let s = work.remove(0);
            proof {
                assert(slots_of(prev_work)[0] == sv.subrange(i, n as int)[0]);
                assert((s.key@, s.window, s.acc.deep_view()) == sv[i]);
            }
            let ghost prev_kept = slots_of(kept@);
            let ghost prev_emitted = emitted.deep_view();
            if self.windower.closed_at(s.window, watermark) {
                emitted.push((s.key, s.acc));
            } else {
                kept.push(s);
            }
            proof {
                sv.take(i).lemma_filter_push(sv[i], open_pred(wr, watermark));
                sv.take(i).lemma_filter_push(sv[i], closed_pred(wr, watermark));
                assert(sv.take(i + 1) =~= sv.take(i).push(sv[i]));
                if wr.is_closed(sv[i].1, watermark) {
                    assert(emitted.deep_view() =~= prev_emitted.push((sv[i].0, sv[i].2)));
                    assert(sv.take(i).filter(closed_pred(wr, watermark)).push(sv[i]).map(
                        emission_of(),
                    ) =~= sv.take(i).filter(closed_pred(wr, watermark)).map(emission_of()).push(
                        (sv[i].0, sv[i].2),
                    ));
                } else {
                    assert(slots_of(kept@) =~= prev_kept.push(sv[i]));
                }
                assert forall|k: int| 0 <= k < work@.len() implies slots_of(work@)[k]
                    == sv.subrange(i + 1, n as int)[k] by {
                    assert(work@[k] == prev_work[k + 1]);
                    assert(slots_of(prev_work)[k + 1] == sv.subrange(i, n as int)[k + 1]);
                }
                assert(slots_of(work@) =~= sv.subrange(i + 1, n as int));
                i = i + 1;
            }
        }
        proof {
            assert(sv.take(n as int) =~= sv);
        }
        core::mem::swap(&mut kept, &mut self.slots);
        proof {
            lemma_filter_preserves_distinct(sv, open_pred(wr, watermark));
        }
        emitted
    }

    /// Process one keyed item end to end: stamp it, advance the watermark,
    /// route it into its window's accumulator (or report it late), and emit
    /// every window the new watermark closes.
    ///
    /// `event_time` and `now` feed the clock as in [`Clock::stamp`].
    pub fn process(&mut self, key: String, value: W::V, event_time: u64, now: u64) -> (r: (
        Option<LateItem>,
        Vec<(String, W::Acc)>,
    ))
        requires
            old(self).wf(),
        ensures
            final(self).wf(),
            final(self).ops() == old(self).ops(),
            final(self).windower() == old(self).windower(),
            final(self).clock().config() == old(self).clock().config(),
            final(self).clock().items_seen() == sat_u64(old(self).clock().items_seen() + 1),
            ({
                let t = old(self).clock().stamp_time_spec(event_time, now);
                let wm = time_max(old(self).clock().watermark(), t);
                let wr = old(self).windower();
                let late = match wr.window_of(t) {
                    None => true,
                    Some(w) => wr.is_closed(w, wm),
                };
                let mid = if late {
                    old(self).slots_view()
                } else {
                    upsert_slot(
                        old(self).ops(),
                        old(self).slots_view(),
                        key@,
                        wr.window_of(t)->Some_0,
                        value.deep_view(),
                    )
                };
                &&& final(self).clock().watermark() == wm
                &&& final(self).slots_view() == open_slots(wr, wm, mid)
                &&& r.1.deep_view() == closed_emissions(wr, wm, mid)
                &&& (match r.0 {
                    Some(li) => late && li.key@ == key@ && li.timestamp == t,
                    None => !late,
                })
            }),
    {
        let t = self.clock.stamp(event_time, now);
        let wm = self.clock.current_watermark();
        let mut late: Option<LateItem> = None;
        match self.windower.assign(t) {
            Some(w) => {
                if self.windower.closed_at(w, wm) {
                    late = Some(LateItem { key, timestamp: t });
                } else {
                    self.upsert(key, w, value);
                }
            },
            None => {
                late = Some(LateItem { key, timestamp: t });
            },
        }
        let ghost mid = self.slots_view();
        let emitted = self.sweep(wm);
        proof {
            lemma_open_slots_all_open(self.windower(), wm, mid);
        }
        (late, emitted)
    }

    /// Let time pass without an item: raise the watermark to the host's
    /// current reading and emit every window that closes because of it.
    pub fn advance_time(&mut self, now: u64) -> (emitted: Vec<(String, W::Acc)>)
        requires
            old(self).wf(),
        ensures
            final(self).wf(),
            final(self).ops() == old(self).ops(),
            final(self).windower() == old(self).windower(),
            final(self).clock().config() == old(self).clock().config(),
            final(self).clock().items_seen() == old(self).clock().items_seen(),
            ({
                let wm = time_max(old(self).clock().watermark(), now);
                &&& final(self).clock().watermark() == wm
                &&& final(self).slots_view() == open_slots(
                    old(self).windower(),
                    wm,
                    old(self).slots_view(),
                )
                &&& emitted.deep_view() == closed_emissions(
                    old(self).windower(),
                    wm,
                    old(self).slots_view(),
                )
            }),
    {
        self.clock.observe(now);
        let wm = self.clock.current_watermark();
        let ghost mid = self.slots_view();
        let emitted = self.sweep(wm);
        proof {
            lemma_open_slots_all_open(self.windower(), wm, mid);
        }
        emitted
    }

    /// End of stream: close every window still open and emit it, in slot
    /// order, regardless of the watermark. Must be the last call for this
    /// stream — after it the operator holds no window state.
    pub fn flush(&mut self) -> (emitted: Vec<(String, W::Acc)>)
        requires
            old(self).wf(),
        ensures
            final(self).wf(),
            final(self).ops() == old(self).ops(),
            final(self).windower() == old(self).windower(),
            final(self).clock() == old(self).clock(),
            final(self).slots_view() == Seq::<(Seq<char>, u64, <W::Acc as DeepView>::V)>::empty(),
            emitted.deep_view() == old(self).slots_view().map(emission_of()),
    {
        let ghost sv = self.slots_view();
        let mut emitted: Vec<(String, W::Acc)> = Vec::new();
        proof {
            assert(sv.take(0) =~= Seq::<(Seq<char>, u64, <W::Acc as DeepView>::V)>::empty());
            assert(emitted.deep_view() =~= sv.take(0).map(emission_of()));
        }
        let ghost mut i: int = 0;
        let ghost n = sv.len();
        while self.slots.len() > 0
            invariant
                0 <= i <= n,
                slots_of(self.slots@) =~= sv.subrange(i, n as int),
                emitted.deep_view() == sv.take(i).map(emission_of()),
                n == sv.len(),
                i == n - self.slots@.len(),
                self.ops() == old(self).ops(),
                self.clock() == old(self).clock(),
                self.windower() == old(self).windower(),
            decreases self.slots@.len(),
        {
            let ghost prev_work = self.slots@;
            let s = self.slots.remove(0);
            proof {
                assert(slots_of(prev_work)[0] == sv.subrange(i, n as int)[0]);
                assert((s.key@, s.window, s.acc.deep_view()) == sv[i]);
            }
            let ghost prev = emitted.deep_view();
            emitted.push((s.key, s.acc));
            proof {
                assert(sv.take(i + 1) =~= sv.take(i).push(sv[i]));
                assert(sv.take(i + 1).map(emission_of()) =~= sv.take(i).map(emission_of()).push(
                    (sv[i].0, sv[i].2),
                ));
                assert(emitted.deep_view() =~= prev.push((sv[i].0, sv[i].2)));
                assert forall|k: int| 0 <= k < self.slots@.len() implies slots_of(self.slots@)[k]
                    == sv.subrange(i + 1, n as int)[k] by {
                    assert(self.slots@[k] == prev_work[k + 1]);
                    assert(slots_of(prev_work)[k + 1] == sv.subrange(i, n as int)[k + 1]);
                }
                assert(slots_of(self.slots@) =~= sv.subrange(i + 1, n as int));
                i = i + 1;
            }
        }
        proof {
            assert(sv.take(n as int) =~= sv);
            assert(self.slots_view() =~= Seq::<(Seq<char>, u64, <W::Acc as DeepView>::V)>::empty());
        }
        emitted
    }

    /// A pure read of every resident window accumulator, in slot order, for
    /// snapshot capture: the state [`Self::resume`] rebuilds the operator
    /// from.
    pub fn export_slots(&self) -> (r: Vec<(String, u64, W::Acc)>)
        ensures
            r.deep_view() == self.slots_view(),
    {
        let mut r: Vec<(String, u64, W::Acc)> = Vec::new();
        proof {
            assert(r.deep_view() =~= self.slots_view().take(0));
        }
        let mut i: usize = 0;
        while i < self.slots.len()
            invariant
                i <= self.slots@.len(),
                self.slots_view().len() == self.slots@.len(),
                r.deep_view() == self.slots_view().take(i as int),
            decreases self.slots@.len() - i,
        {
            let key = self.slots[i].key.clone();
            let window = self.slots[i].window;
            let acc = self.ops.clone_acc(&self.slots[i].acc);
            let ghost prev = r.deep_view();
            r.push((key, window, acc));
            proof {
                assert(self.slots_view().take(i as int + 1) =~= self.slots_view().take(
                    i as int,
                ).push(self.slots_view()[i as int]));
                assert(r.deep_view() =~= prev.push(self.slots_view()[i as int]));
            }
            i = i + 1;
        }
        proof {
            assert(self.slots_view().take(self.slots@.len() as int) =~= self.slots_view());
        }
        r
    }

    /// Rebuild an operator from captured window state, failing closed: a
    /// duplicate (key, window) pair or a window the clock's watermark has
    /// already closed is rejected, since accepting either could emit a window
    /// twice or resurrect a closed one.
    pub fn resume(
        ops: W,
        clock: Clock,
        windower: TumblingWindower,
        saved: Vec<(String, u64, W::Acc)>,
    ) -> (r: Result<WindowedOperator<W>, ResumeError>)
        requires
            windower.length() >= 1,
        ensures
            match r {
                Ok(op) => {
                    &&& op.wf()
                    &&& op.ops() == ops
                    &&& op.clock() == clock
                    &&& op.windower() == windower
                    &&& op.slots_view() == saved.deep_view()
                    &&& valid_resume_slots(windower, clock.watermark(), saved.deep_view())
                },
                Err(_) => !valid_resume_slots(windower, clock.watermark(), saved.deep_view()),
            },
    {
        let ghost sv = saved.deep_view();
        let ghost n = sv.len();
        let wm = clock.current_watermark();
        let mut op = WindowedOperator { ops, clock, windower, slots: Vec::new() };
        let mut work = saved;
        proof {
            assert(op.slots_view() =~= sv.take(0));
            assert(work.deep_view() =~= sv.subrange(0, n as int));
        }
        let ghost mut i: int = 0;
        while work.len() > 0
            invariant
                sv == saved.deep_view(),
                0 <= i <= n,
                n == sv.len(),
                i == n - work@.len(),
                work.deep_view() =~= sv.subrange(i, n as int),
                op.slots_view() == sv.take(i),
                op.ops() == ops,
                op.clock() == clock,
                op.windower() == windower,
                windower.length() >= 1,
                wm == clock.watermark(),
                distinct_slots(sv.take(i)),
                forall|j: int|
                    0 <= j < i ==> !windower.is_closed((#[trigger] sv.take(i)[j]).1, wm),
            decreases work@.len(),
        {
            let ghost prev_work = work.deep_view();
            let ghost prev_vec = work@;
            let (key, window, acc) = work.remove(0);
            proof {
                assert(prev_work[0] == sv.subrange(i, n as int)[0]);
                assert((key@, window, acc.deep_view()) == sv[i]);
            }
            match op.find_slot(&key, window) {
                Some(dup) => {
                    proof {
                        assert(sv.take(i)[dup as int] == sv[dup as int]);
                        assert(sv[dup as int].0 == sv[i].0 && sv[dup as int].1 == sv[i].1);
                        assert(0 <= dup < i < sv.len());
                        assert(!distinct_slots(sv));
                    }
                    return Err(ResumeError::DuplicateSlot);
                },
                None => {},
            }
            if op.windower.closed_at(window, wm) {
                proof {
                    assert(windower.is_closed((sv[i]).1, wm));
                    assert(0 <= i < sv.len());
                    assert(!valid_resume_slots(windower, wm, sv));
                }
                return Err(ResumeError::ClosedWindow);
            }
            proof {
                assert forall|j: int| 0 <= j < i implies !(sv.take(i)[j].0 == key@ && sv.take(
                    i,
                )[j].1 == window) by {
                    assert(sv.take(i)[j] == op.slots_view()[j]);
                }
            }
            op.slots.push(WindowSlot { key, window, acc });
            proof {
                assert(op.slots_view() =~= sv.take(i).push(sv[i]));
                assert(sv.take(i + 1) =~= sv.take(i).push(sv[i]));
                assert forall|k: int| 0 <= k < work@.len() implies work.deep_view()[k]
                    == sv.subrange(i + 1, n as int)[k] by {
                    assert(work@[k] == prev_vec[k + 1]);
                    assert(work.deep_view()[k] == prev_work[k + 1]);
                    assert(prev_work[k + 1] == sv.subrange(i, n as int)[k + 1]);
                }
                assert(work.deep_view() =~= sv.subrange(i + 1, n as int));
                assert forall|a: int, b: int|
                    #![trigger sv.take(i + 1)[a], sv.take(i + 1)[b]]
                    0 <= a < b < i + 1 implies !(sv.take(i + 1)[a].0 == sv.take(i + 1)[b].0
                    && sv.take(i + 1)[a].1 == sv.take(i + 1)[b].1) by {
                    assert(sv.take(i + 1)[a] == sv.take(i)[a]);
                    if b == i {
                        assert(sv.take(i + 1)[b] == sv[i]);
                        assert(!(sv.take(i)[a].0 == key@ && sv.take(i)[a].1 == window));
                    } else {
                        assert(sv.take(i + 1)[b] == sv.take(i)[b]);
                    }
                }
                i = i + 1;
            }
        }
        proof {
            assert(sv.take(n as int) =~= sv);
        }
        Ok(op)
    }
}

/// Per-window accumulation at the operator level: an accepted item only
/// touches its own (key, window) slot. A first item creates the slot holding
/// `combine_all` of the one-value delivery; a later item merges into the
/// slot's accumulator, so a slot holding `combine_all` of the values
/// delivered so far afterwards holds `combine_all` of those values plus this
/// one — per-key isolation and repeated merge in delivery order, together.
pub proof fn lemma_upsert_tracks_combine_all<W: WindowCombine>(
    ops: W,
    slots: Seq<(Seq<char>, u64, <W::Acc as DeepView>::V)>,
    key: Seq<char>,
    window: u64,
    delivered: Seq<<W::V as DeepView>::V>,
    value: <W::V as DeepView>::V,
)
    requires
        distinct_slots(slots),
    ensures
        (forall|i: int|
            0 <= i < slots.len() && !((#[trigger] slots[i]).0 == key && slots[i].1 == window)
                ==> upsert_slot(ops, slots, key, window, value)[i] == slots[i]),
        (forall|i: int|
            0 <= i < slots.len() && (#[trigger] slots[i]).0 == key && slots[i].1 == window
                && delivered.len() > 0 && slots[i].2 == combine_all(ops, key, delivered)->Some_0
                ==> upsert_slot(ops, slots, key, window, value)[i] == (
            key,
            window,
            combine_all(ops, key, delivered.push(value))->Some_0,
        )),
        (forall|i: int|
            0 <= i < slots.len() ==> !((#[trigger] slots[i]).0 == key && slots[i].1 == window))
            ==> upsert_slot(ops, slots, key, window, value) == slots.push(
            (key, window, combine_all(ops, key, seq![value])->Some_0),
        ),
{
    crate::logic::lemma_window_run_folds(ops, key, seq![value]);
    assert(seq![value].drop_first() =~= Seq::<<W::V as DeepView>::V>::empty());
    assert(combine_all(ops, key, seq![value]) == Some(ops.init_view(key, value)));
    if exists|i: int| 0 <= i < slots.len() && slots[i].0 == key && slots[i].1 == window {
        let w = choose|i: int| 0 <= i < slots.len() && slots[i].0 == key && slots[i].1 == window;
        assert forall|i: int|
            0 <= i < slots.len() && (#[trigger] slots[i]).0 == key && slots[i].1 == window
                && delivered.len() > 0 && slots[i].2 == combine_all(
                ops,
                key,
                delivered,
            )->Some_0 implies upsert_slot(ops, slots, key, window, value)[i] == (
            key,
            window,
            combine_all(ops, key, delivered.push(value))->Some_0,
        ) by {
            assert(i == w);
            crate::logic::lemma_combine_all_push(ops, key, delivered, value);
        }
    }
}

/// A state a windowed operator may validly resume from: no (key, window)
/// pair twice, and no window the watermark has already closed.
pub open spec fn valid_resume_slots<AV>(
    wr: TumblingWindower,
    wm: u64,
    slots: Seq<(Seq<char>, u64, AV)>,
) -> bool {
    &&& distinct_slots(slots)
    &&& forall|i: int|
        0 <= i < slots.len() ==> !wr.is_closed((#[trigger] slots[i]).1, wm)
}

/// Why a saved window state was rejected at resume time.
#[derive(Clone, Copy, PartialEq, Eq, Debug)]
pub enum ResumeError {
    /// Two saved slots serve the same (key, window) pair.
    DuplicateSlot,
    /// A saved slot's window is already closed under the clock's watermark,
    /// so accepting it could emit a closed window twice.
    ClosedWindow,
}

/// Exactly-once closure: once the watermark has closed a window, every later
/// item whose timestamp falls into that window is reported late — whatever
/// the watermark has become by then, the item can never be merged, so the
/// window's emission is final.
pub proof fn lemma_closed_window_rejects_items(
    wr: TumblingWindower,
    closing_wm: u64,
    later_wm: u64,
    t: u64,
)
    requires
        wr.window_of(t) is Some,
        wr.is_closed(wr.window_of(t)->Some_0, closing_wm),
        closing_wm <= later_wm,
    ensures
        wr.is_closed(wr.window_of(t)->Some_0, crate::clock::time_max(later_wm, t)),
{
}

/// Filtering keeps distinctness of (key, window) pairs.
proof fn lemma_filter_preserves_distinct<AV>(
    slots: Seq<(Seq<char>, u64, AV)>,
    pred: spec_fn((Seq<char>, u64, AV)) -> bool,
)
    requires
        distinct_slots(slots),
    ensures
        distinct_slots(slots.filter(pred)),
    decreases slots.len(),
{
    reveal(Seq::filter);
    if slots.len() > 0 {
        assert forall|x: int, y: int| 0 <= x < y < slots.drop_last().len() implies !(
        slots.drop_last()[x].0 == slots.drop_last()[y].0 && slots.drop_last()[x].1
            == slots.drop_last()[y].1) by {
            assert(slots.drop_last()[x] == slots[x]);
            assert(slots.drop_last()[y] == slots[y]);
        }
        lemma_filter_preserves_distinct(slots.drop_last(), pred);
        let sub = slots.drop_last().filter(pred);
        if pred(slots.last()) {
            let out = sub.push(slots.last());
            assert forall|a: int, b: int| 0 <= a < b < out.len() implies !(out[a].0 == out[b].0
                && out[a].1 == out[b].1) by {
                if b < out.len() - 1 {
                    assert(out[a] == sub[a] && out[b] == sub[b]);
                } else {
                    lemma_filter_member_of(slots.drop_last(), pred, a);
                    let j = choose|j: int|
                        0 <= j < slots.drop_last().len() && slots.drop_last()[j] == sub[a];
                    assert(slots[j] == sub[a]);
                    assert(out[b] == slots.last());
                    assert(slots[slots.len() - 1] == slots.last());
                    assert(!(slots[j].0 == slots[slots.len() - 1].0 && slots[j].1
                        == slots[slots.len() - 1].1));
                }
            }
        }
    }
}

/// Every element of a filtered sequence comes from the original.
proof fn lemma_filter_member_of<AV>(
    slots: Seq<(Seq<char>, u64, AV)>,
    pred: spec_fn((Seq<char>, u64, AV)) -> bool,
    a: int,
)
    requires
        0 <= a < slots.filter(pred).len(),
    ensures
        exists|j: int| 0 <= j < slots.len() && slots[j] == slots.filter(pred)[a],
    decreases slots.len(),
{
    reveal(Seq::filter);
    if slots.len() > 0 {
        let sub = slots.drop_last().filter(pred);
        if a < sub.len() {
            lemma_filter_member_of(slots.drop_last(), pred, a);
            let j = choose|j: int|
                0 <= j < slots.drop_last().len() && slots.drop_last()[j] == sub[a];
            assert(slots[j] == slots.filter(pred)[a]);
        } else {
            assert(slots[slots.len() - 1] == slots.filter(pred)[a]);
        }
    }
}

/// After a sweep at a watermark, every surviving slot's window is still open.
proof fn lemma_open_slots_all_open<AV>(
    wr: TumblingWindower,
    wm: u64,
    slots: Seq<(Seq<char>, u64, AV)>,
)
    ensures
        forall|i: int|
            0 <= i < open_slots(wr, wm, slots).len() ==> !wr.is_closed(
                (#[trigger] open_slots(wr, wm, slots)[i]).1,
                wm,
            ),
{
    assert forall|i: int| 0 <= i < open_slots(wr, wm, slots).len() implies !wr.is_closed(
        (open_slots(wr, wm, slots)[i]).1,
        wm,
    ) by {
        slots.lemma_filter_pred(open_pred(wr, wm), i);
    }
}

} // verus!
