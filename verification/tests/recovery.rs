//! Tests for the snapshot envelope and the recovery coordinator.

use flowstate::combiners::{ThresholdSum, U64LeCodec};
use flowstate::envelope::{decode, encode, EnvelopeError, MAGIC_0, MAGIC_1};
use flowstate::recovery::{
    capture, capture_store, restore, restore_store, RecoveryError, SnapshotRecord,
};
use flowstate::reduce::Reduce;

#[test]
fn envelope_round_trip() {
    let payload = vec![1u8, 2, 3, 250];
    let bytes = encode(&payload);
    assert_eq!(decode(&bytes), Ok(payload));
    let empty: Vec<u8> = vec![];
    let bytes = encode(&empty);
    assert_eq!(decode(&bytes), Ok(empty));
}

#[test]
fn envelope_rejects_truncation() {
    let bytes = encode(&vec![9u8, 8, 7]);
    let truncated = bytes[..bytes.len() - 1].to_vec();
    assert!(matches!(
        decode(&truncated),
        Err(EnvelopeError::LengthMismatch)
    ));
    let header_only = bytes[..5].to_vec();
    assert!(matches!(decode(&header_only), Err(EnvelopeError::TooShort)));
}

#[test]
fn envelope_rejects_bad_magic() {
    let mut bytes = encode(&vec![9u8]);
    assert_eq!(bytes[0], MAGIC_0);
    assert_eq!(bytes[1], MAGIC_1);
    bytes[0] ^= 0xff;
    assert!(matches!(decode(&bytes), Err(EnvelopeError::BadMagic)));
}

#[test]
fn envelope_rejects_tampered_length() {
    let mut bytes = encode(&vec![9u8, 9, 9]);
    bytes[2] = bytes[2].wrapping_add(1);
    assert!(matches!(decode(&bytes), Err(EnvelopeError::LengthMismatch)));
}

#[test]
fn capture_restore_round_trip() {
    let codec = U64LeCodec;
    let record = capture(
        &codec,
        &"sum".to_string(),
        &"a".to_string(),
        7,
        &123456789012345,
    );
    assert_eq!(record.step_id, "sum".to_string());
    assert_eq!(record.key, "a".to_string());
    assert_eq!(record.epoch, 7);
    assert_eq!(restore(&codec, &record).ok(), Some(123456789012345));
}

#[test]
fn restore_fails_closed_on_corrupt_envelope() {
    let codec = U64LeCodec;
    let mut record = capture(&codec, &"sum".to_string(), &"a".to_string(), 7, &42);
    record.envelope[0] ^= 0xff;
    match restore(&codec, &record) {
        Err(RecoveryError::CorruptEnvelope(key)) => assert_eq!(key, "a".to_string()),
        _ => panic!("a corrupted envelope must abort the key's resumption"),
    }
}

#[test]
fn restore_fails_closed_on_corrupt_state() {
    let codec = U64LeCodec;
    // A well-formed envelope whose payload is not an encoded state.
    let record = SnapshotRecord {
        step_id: "sum".to_string(),
        key: "a".to_string(),
        epoch: 1,
        envelope: encode(&vec![1u8, 2, 3]),
    };
    match restore(&codec, &record) {
        Err(RecoveryError::CorruptState(key)) => assert_eq!(key, "a".to_string()),
        _ => panic!("an undecodable payload must abort the key's resumption"),
    }
}

#[test]
fn operator_state_survives_capture_and_restore() {
    let codec = U64LeCodec;
    let mut op = Reduce::new(ThresholdSum { threshold: 10 });
    assert_eq!(op.process("a".to_string(), 4), None);
    assert_eq!(op.process("b".to_string(), 7), None);
    let records = capture_store(&codec, &"sum".to_string(), 3, op.store());
    assert_eq!(records.len(), 2);

    // A restart: rebuild the operator from the persisted records.
    let restored = restore_store(&codec, &records).expect("restore must succeed");
    let mut op2 = Reduce::with_store(ThresholdSum { threshold: 10 }, restored);
    // The rebuilt operator continues exactly where the original left off.
    assert_eq!(op2.process("a".to_string(), 6), Some(("a".to_string(), 10)));
    assert_eq!(op2.process("b".to_string(), 3), Some(("b".to_string(), 10)));
}

#[test]
fn one_corrupt_key_aborts_restore() {
    let codec = U64LeCodec;
    let mut op = Reduce::new(ThresholdSum { threshold: 100 });
    assert_eq!(op.process("a".to_string(), 1), None);
    assert_eq!(op.process("b".to_string(), 2), None);
    let mut records = capture_store(&codec, &"sum".to_string(), 1, op.store());
    // Losing the last byte leaves b's record without a valid envelope.
    records[1].envelope.pop();
    match restore_store(&codec, &records) {
        Err(RecoveryError::CorruptEnvelope(key)) => assert_eq!(key, "b".to_string()),
        _ => panic!("a corrupted record must abort the restoration"),
    }
}

#[test]
fn restore_of_no_records_starts_fresh() {
    let codec = U64LeCodec;
    let records: Vec<SnapshotRecord> = vec![];
    let restored = restore_store(&codec, &records).expect("restore must succeed");
    let mut op = Reduce::with_store(ThresholdSum { threshold: 5 }, restored);
    assert_eq!(op.resident_keys(), 0);
    assert_eq!(op.process("a".to_string(), 5), Some(("a".to_string(), 5)));
}
