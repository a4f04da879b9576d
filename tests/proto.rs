use binostr::event::NostrEvent;
use binostr::proto::{binary, string};

fn sample_event() -> NostrEvent {
    NostrEvent {
        id: [0xab; 32],
        pubkey: [0xcd; 32],
        created_at: 1234567890,
        kind: 1,
        tags: vec![
            vec!["p".to_string(), "abc123".to_string()],
            vec!["e".to_string(), "def456".to_string()],
        ],
        content: "Hello, Nostr!".to_string(),
        sig: [0xef; 64],
    }
}

#[test]
fn test_string_roundtrip() {
    let event = sample_event();
    let bytes = string::serialize(&event);
    let back = string::deserialize(&bytes).unwrap();
    assert_eq!(event, back);
}

#[test]
fn test_binary_roundtrip() {
    let event = sample_event();
    let bytes = binary::serialize(&event);
    let back = binary::deserialize(&bytes).unwrap();
    assert_eq!(event, back);
}

#[test]
fn proto_test_size_comparison() {
    let event = sample_event();
    let string_size = string::serialize(&event).len();
    let binary_size = binary::serialize(&event).len();
    println!("Proto String: {} bytes", string_size);
    println!("Proto Binary: {} bytes", binary_size);
    assert!(binary_size < string_size);
}

#[test]
fn proto_test_batch_roundtrip() {
    let events = vec![sample_event(), sample_event()];

    let bytes = string::serialize_batch(&events);
    let back = string::deserialize_batch(&bytes).unwrap();
    assert_eq!(events, back);

    let bytes = binary::serialize_batch(&events);
    let back = binary::deserialize_batch(&bytes).unwrap();
    assert_eq!(events, back);
}

#[test]
fn proto_binary_exact_bytes() {
    let mut event = sample_event();
    event.created_at = 0;
    event.kind = 300;
    event.tags = vec![vec!["t".to_string()]];
    event.content = String::new();
    let bytes = binary::serialize(&event);
    let mut expected = vec![0x0a, 32];
    expected.extend_from_slice(&[0xab; 32]);
    expected.extend_from_slice(&[0x12, 32]);
    expected.extend_from_slice(&[0xcd; 32]);
    expected.extend_from_slice(&[0x20, 0xac, 0x02]);
    expected.extend_from_slice(&[0x2a, 3, 0x0a, 1, b't']);
    expected.extend_from_slice(&[0x3a, 64]);
    expected.extend_from_slice(&[0xef; 64]);
    assert_eq!(bytes, expected);
    assert_eq!(binary::deserialize(&bytes).unwrap(), event);
}

#[test]
fn proto_rejects_bad_sizes() {
    let mut bytes = binary::serialize(&sample_event());
    bytes[1] = 31;
    assert!(binary::deserialize(&bytes).is_err());
    assert!(string::deserialize(&[0x0a, 2, b'z', b'z']).is_err());
    assert!(binary::deserialize(&[]).is_err());
}
