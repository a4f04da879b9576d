use binostr::event::NostrEvent;
use binostr::notepack::{deserialize, deserialize_batch, serialize, serialize_batch, NotepackError};

fn sample_event() -> NostrEvent {
    NostrEvent {
        id: [0xab; 32],
        pubkey: [0xcd; 32],
        created_at: 1234567890,
        kind: 1,
        tags: vec![
            vec!["p".to_string(), "abcd1234".to_string()],
            vec!["e".to_string(), "deadbeef".to_string()],
        ],
        content: "Hello, Nostr!".to_string(),
        sig: [0xef; 64],
    }
}

#[test]
fn notepack_test_roundtrip() {
    let event = sample_event();
    let bytes = serialize(&event);
    let back = deserialize(&bytes).unwrap();
    assert_eq!(event, back);
}

#[test]
fn notepack_test_batch_roundtrip() {
    let events = vec![sample_event(), sample_event()];
    let bytes = serialize_batch(&events);
    let back = deserialize_batch(&bytes).unwrap();
    assert_eq!(events, back);
}

#[test]
fn test_empty_content() {
    let event = NostrEvent {
        id: [0x11; 32],
        pubkey: [0x22; 32],
        created_at: 1700000000,
        kind: 1,
        tags: vec![],
        content: String::new(),
        sig: [0x33; 64],
    };
    let bytes = serialize(&event);
    let back = deserialize(&bytes).unwrap();
    assert_eq!(event, back);
}

#[test]
fn test_unicode_content() {
    let event = NostrEvent {
        id: [0x44; 32],
        pubkey: [0x55; 32],
        created_at: 1700000001,
        kind: 1,
        tags: vec![],
        content: "Hello 🌍! こんにちは 世界 🚀".to_string(),
        sig: [0x66; 64],
    };
    let bytes = serialize(&event);
    let back = deserialize(&bytes).unwrap();
    assert_eq!(event, back);
}

#[test]
fn notepack_batch_framing_errors() {
    assert!(matches!(deserialize_batch(&[1, 0]), Err(NotepackError::MissingField("batch header"))));
    assert!(matches!(deserialize_batch(&[1, 0, 0, 0]), Err(NotepackError::MissingField("event length"))));
    assert!(matches!(
        deserialize_batch(&[1, 0, 0, 0, 9, 0, 0, 0]),
        Err(NotepackError::MissingField("event data"))
    ));
    assert_eq!(deserialize_batch(&[0, 0, 0, 0]).unwrap(), vec![]);
}
