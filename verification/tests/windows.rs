//! Tests for the clock, the windower, the window logic contract and the
//! windowed operator.

use flowstate::clock::{Clock, ClockConfig};
use flowstate::combiners::{CountingFold, SaturatingSum, VecConcat};
use flowstate::logic::{FoldWindowOps, ReduceWindowOps, WindowLogic};
use flowstate::windowed::{ResumeError, WindowedOperator};
use flowstate::windower::{TumblingWindower, WindowerConfig, WindowerConfigError};

fn testing_clock(start_at: u64, item_incr: u64) -> Clock {
    Clock::new(ClockConfig::Testing {
        start_at,
        item_incr,
    })
}

#[test]
fn testing_clock_stamps_deterministically() {
    let mut c = testing_clock(0, 1);
    assert_eq!(c.stamp(99, 99), 0);
    assert_eq!(c.stamp(99, 99), 1);
    assert_eq!(c.stamp(99, 99), 2);
    assert_eq!(c.current_watermark(), 2);
}

#[test]
fn watermark_never_decreases() {
    let mut c = Clock::new(ClockConfig::EventTime);
    assert_eq!(c.stamp(5, 0), 5);
    assert_eq!(c.current_watermark(), 5);
    // An out-of-order item is stamped with its own time, but the watermark
    // stays where it was.
    assert_eq!(c.stamp(1, 0), 1);
    assert_eq!(c.current_watermark(), 5);
    c.observe(9);
    assert_eq!(c.current_watermark(), 9);
    c.observe(3);
    assert_eq!(c.current_watermark(), 9);
}

#[test]
fn tumbling_bounds_are_half_open() {
    let w = TumblingWindower::new(2, 0);
    assert_eq!(w.assign(0), Some(0));
    assert_eq!(w.assign(1), Some(0));
    // The boundary timestamp belongs to the window it opens.
    assert_eq!(w.assign(2), Some(1));
    assert_eq!(w.assign(3), Some(1));
    // A window closes exactly when the watermark reaches its upper bound.
    assert!(!w.closed_at(0, 1));
    assert!(w.closed_at(0, 2));
    assert!(!w.closed_at(1, 3));
    assert!(w.closed_at(1, 4));
}

#[test]
fn windower_config_rejects_zero_length() {
    let r = TumblingWindower::from_config(&WindowerConfig::Tumbling {
        length: 0,
        start_at: 0,
    });
    assert!(matches!(r, Err(WindowerConfigError::ZeroLength)));
    assert!(TumblingWindower::from_config(&WindowerConfig::Tumbling {
        length: 2,
        start_at: 7,
    })
    .is_ok());
}

#[test]
fn window_logic_empty_window_emits_nothing() {
    let ops = ReduceWindowOps {
        combiner: SaturatingSum,
    };
    let mut logic = WindowLogic::build(None);
    // The closing call on an instance that never saw a value returns nothing.
    assert_eq!(logic.exec(&ops, &"k".to_string(), None), None);
}

#[test]
fn window_logic_single_value_unmodified() {
    let ops = ReduceWindowOps {
        combiner: SaturatingSum,
    };
    let key = "k".to_string();
    let mut logic = WindowLogic::build(None);
    assert_eq!(logic.exec(&ops, &key, Some(41)), None);
    assert_eq!(logic.exec(&ops, &key, None), Some(41));
}

#[test]
fn window_logic_snapshot_resume_equivalent() {
    let ops = ReduceWindowOps {
        combiner: SaturatingSum,
    };
    let key = "k".to_string();
    let mut original = WindowLogic::build(None);
    original.exec(&ops, &key, Some(3));
    let snapshot = original.snapshot(&ops);
    let mut resumed = WindowLogic::build(Some(snapshot));
    // Both instances behave identically for any subsequent call sequence.
    assert_eq!(
        original.exec(&ops, &key, Some(4)),
        resumed.exec(&ops, &key, Some(4))
    );
    assert_eq!(original.exec(&ops, &key, None), resumed.exec(&ops, &key, None));
}

#[test]
fn reduce_window_combines_in_delivery_order() {
    let ops = ReduceWindowOps { combiner: VecConcat };
    let key = "k".to_string();
    let mut logic = WindowLogic::build(None);
    assert_eq!(logic.exec(&ops, &key, Some(vec![1])), None);
    assert_eq!(logic.exec(&ops, &key, Some(vec![2])), None);
    assert_eq!(logic.exec(&ops, &key, Some(vec![3])), None);
    assert_eq!(logic.exec(&ops, &key, None), Some(vec![1, 2, 3]));
}

#[test]
fn reduce_window_tumbling_end_to_end() {
    // Tumbling windows of two time units, synthetic clock starting at zero
    // and incrementing by one per item.
    let ops = ReduceWindowOps {
        combiner: SaturatingSum,
    };
    let mut op = WindowedOperator::new(ops, testing_clock(0, 1), TumblingWindower::new(2, 0));
    let mut emitted: Vec<(String, u64)> = Vec::new();
    for key in ["a", "b", "a", "b"] {
        let (late, out) = op.process(key.to_string(), 1, 0, 0);
        assert!(late.is_none());
        emitted.extend(out);
    }
    emitted.extend(op.flush());
    assert_eq!(
        emitted,
        vec![
            ("a".to_string(), 1),
            ("b".to_string(), 1),
            ("a".to_string(), 1),
            ("b".to_string(), 1),
        ]
    );
}

#[test]
fn reduce_window_sums_within_one_window() {
    let ops = ReduceWindowOps {
        combiner: SaturatingSum,
    };
    // All four items land in window [0, 4).
    let mut op = WindowedOperator::new(ops, testing_clock(0, 1), TumblingWindower::new(4, 0));
    let mut emitted: Vec<(String, u64)> = Vec::new();
    for key in ["b", "a", "a", "b"] {
        let (late, out) = op.process(key.to_string(), 1, 0, 0);
        assert!(late.is_none());
        emitted.extend(out);
    }
    assert_eq!(emitted, vec![]);
    emitted.extend(op.flush());
    assert_eq!(emitted, vec![("b".to_string(), 2), ("a".to_string(), 2)]);
}

#[test]
fn fold_window_counts_items() {
    let ops = FoldWindowOps {
        folder: CountingFold,
    };
    let mut op = WindowedOperator::new(ops, testing_clock(0, 1), TumblingWindower::new(4, 0));
    for key in ["a", "a", "b", "a"] {
        let (late, out) = op.process(key.to_string(), 0, 0, 0);
        assert!(late.is_none());
        assert!(out.is_empty());
    }
    assert_eq!(op.flush(), vec![("a".to_string(), 3), ("b".to_string(), 1)]);
}

#[test]
fn late_item_is_reported_and_dropped() {
    let ops = ReduceWindowOps {
        combiner: SaturatingSum,
    };
    let mut op = WindowedOperator::new(
        ops,
        Clock::new(ClockConfig::EventTime),
        TumblingWindower::new(2, 0),
    );
    // An item at time five opens window [4, 6) and moves the watermark to
    // five, which closes windows [0, 2) and [2, 4).
    let (late, out) = op.process("a".to_string(), 1, 5, 0);
    assert!(late.is_none());
    assert!(out.is_empty());
    // An item at time zero now resolves only to the closed window [0, 2):
    // it is dropped with a report, never merged.
    let (late, out) = op.process("b".to_string(), 1, 0, 0);
    let report = late.expect("late item must be reported");
    assert_eq!(report.key, "b".to_string());
    assert_eq!(report.timestamp, 0);
    assert!(out.is_empty());
    // Only the open window's accumulator remains; the late item left no trace.
    assert_eq!(op.flush(), vec![("a".to_string(), 1)]);
}

#[test]
fn advance_time_closes_windows_while_idle() {
    let ops = ReduceWindowOps {
        combiner: SaturatingSum,
    };
    let mut op = WindowedOperator::new(
        ops,
        Clock::new(ClockConfig::System),
        TumblingWindower::new(10, 0),
    );
    let (late, out) = op.process("a".to_string(), 1, 0, 3);
    assert!(late.is_none());
    assert!(out.is_empty());
    // Nothing closes before the window's upper bound.
    assert_eq!(op.advance_time(9), vec![]);
    // The watermark reaching the bound closes the window.
    assert_eq!(op.advance_time(10), vec![("a".to_string(), 1)]);
    assert_eq!(op.flush(), vec![]);
}

#[test]
fn empty_window_never_emits() {
    let ops = ReduceWindowOps {
        combiner: SaturatingSum,
    };
    let mut op = WindowedOperator::new(ops, testing_clock(0, 1), TumblingWindower::new(2, 0));
    assert_eq!(op.advance_time(100), vec![]);
    assert_eq!(op.flush(), vec![]);
}

#[test]
fn windowed_operator_state_survives_export_and_resume() {
    let ops = ReduceWindowOps {
        combiner: SaturatingSum,
    };
    let mut op = WindowedOperator::new(ops, testing_clock(0, 1), TumblingWindower::new(4, 0));
    let (_, out) = op.process("a".to_string(), 1, 0, 0);
    assert!(out.is_empty());
    let (_, out) = op.process("b".to_string(), 5, 0, 0);
    assert!(out.is_empty());
    let saved = op.export_slots();
    assert_eq!(
        saved,
        vec![("a".to_string(), 0, 1), ("b".to_string(), 0, 5)]
    );

    // A restart: a fresh clock resumes at the stamped items' times.
    let mut clock = testing_clock(0, 1);
    clock.stamp(0, 0);
    clock.stamp(0, 0);
    let ops = ReduceWindowOps {
        combiner: SaturatingSum,
    };
    let mut resumed =
        WindowedOperator::resume(ops, clock, TumblingWindower::new(4, 0), saved)
            .expect("a captured state must resume");
    let (late, out) = resumed.process("a".to_string(), 2, 0, 0);
    assert!(late.is_none());
    assert!(out.is_empty());
    assert_eq!(resumed.flush(), vec![("a".to_string(), 3), ("b".to_string(), 5)]);
}

#[test]
fn resume_rejects_duplicate_and_closed_slots() {
    let ops = ReduceWindowOps {
        combiner: SaturatingSum,
    };
    let saved = vec![("a".to_string(), 0, 1), ("a".to_string(), 0, 2)];
    let r = WindowedOperator::resume(
        ops,
        Clock::new(ClockConfig::EventTime),
        TumblingWindower::new(4, 0),
        saved,
    );
    assert!(matches!(r, Err(ResumeError::DuplicateSlot)));

    let ops = ReduceWindowOps {
        combiner: SaturatingSum,
    };
    let mut clock = Clock::new(ClockConfig::EventTime);
    clock.observe(100);
    let saved = vec![("a".to_string(), 0, 1)];
    let r = WindowedOperator::resume(ops, clock, TumblingWindower::new(4, 0), saved);
    assert!(matches!(r, Err(ResumeError::ClosedWindow)));
}

#[test]
fn item_before_origin_is_reported_late() {
    let ops = ReduceWindowOps {
        combiner: SaturatingSum,
    };
    let mut op = WindowedOperator::new(
        ops,
        Clock::new(ClockConfig::EventTime),
        TumblingWindower::new(2, 100),
    );
    let (late, _) = op.process("a".to_string(), 1, 7, 0);
    let report = late.expect("an item before the windower's origin is late");
    assert_eq!(report.timestamp, 7);
    assert_eq!(op.flush(), vec![]);
}
