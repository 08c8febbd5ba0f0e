//! Tests for the unbounded stateful operators: reduce and stateful-map.

use flowstate::combiners::{CountToLimit, SessionReducer, ThresholdSum};
use flowstate::reduce::Reduce;
use flowstate::stateful_map::StatefulMap;

#[test]
fn reduce_complete_on_first_value_emits_and_forgets() {
    let mut op = Reduce::new(ThresholdSum { threshold: 1 });
    let out = op.process("a".to_string(), 5);
    assert_eq!(out, Some(("a".to_string(), 5)));
    assert_eq!(op.resident_keys(), 0);
    // The next value for the same key starts a fresh accumulator.
    let out = op.process("a".to_string(), 3);
    assert_eq!(out, Some(("a".to_string(), 3)));
    assert_eq!(op.resident_keys(), 0);
}

#[test]
fn reduce_accumulates_until_threshold() {
    let mut op = Reduce::new(ThresholdSum { threshold: 10 });
    assert_eq!(op.process("a".to_string(), 4), None);
    assert_eq!(op.resident_keys(), 1);
    assert_eq!(op.process("a".to_string(), 5), None);
    assert_eq!(op.process("a".to_string(), 1), Some(("a".to_string(), 10)));
    assert_eq!(op.resident_keys(), 0);
}

#[test]
fn reduce_keeps_keys_isolated() {
    let mut op = Reduce::new(ThresholdSum { threshold: 10 });
    assert_eq!(op.process("a".to_string(), 6), None);
    assert_eq!(op.process("b".to_string(), 6), None);
    assert_eq!(op.process("a".to_string(), 4), Some(("a".to_string(), 10)));
    // b's accumulator is untouched by a's emission.
    assert_eq!(op.resident_keys(), 1);
    assert_eq!(op.process("b".to_string(), 4), Some(("b".to_string(), 10)));
}

#[test]
fn reduce_session_emits_once_after_logout() {
    let mut op = Reduce::new(SessionReducer);
    let out = op.process("a".to_string(), vec!["login".to_string()]);
    assert_eq!(out, None);
    let out = op.process("a".to_string(), vec!["post".to_string()]);
    assert_eq!(out, None);
    let out = op.process("a".to_string(), vec!["logout".to_string()]);
    assert_eq!(
        out,
        Some((
            "a".to_string(),
            vec![
                "login".to_string(),
                "post".to_string(),
                "logout".to_string()
            ]
        ))
    );
    assert_eq!(op.resident_keys(), 0);
}

#[test]
fn stateful_map_emits_every_output() {
    let mut op = StatefulMap::new(CountToLimit { limit: 10 });
    assert_eq!(op.process("a".to_string(), 0), 1);
    assert_eq!(op.process("a".to_string(), 0), 2);
    assert_eq!(op.process("a".to_string(), 0), 3);
    assert_eq!(op.process("b".to_string(), 0), 1);
    assert_eq!(op.resident_keys(), 2);
}

#[test]
fn stateful_map_forget_reinvokes_builder() {
    let mut op = StatefulMap::new(CountToLimit { limit: 2 });
    assert_eq!(op.process("a".to_string(), 0), 1);
    // The mapper returns no new state here, so the key's state is forgotten.
    assert_eq!(op.process("a".to_string(), 0), 2);
    assert_eq!(op.resident_keys(), 0);
    // The next item for the same key sees the builder's fresh state again.
    assert_eq!(op.process("a".to_string(), 0), 1);
    assert_eq!(op.resident_keys(), 1);
}
