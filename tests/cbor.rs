use binostr::cbor::{intkey, packed, schemaless, CborError, CborSchemaless};
use binostr::event::NostrEvent;

fn sample_event() -> NostrEvent {
    NostrEvent {
        id: [0xab; 32],
        pubkey: [0xcd; 32],
        created_at: 1234567890,
        kind: 1,
        tags: vec![
            vec!["p".to_string(), "abc123".to_string()],
            vec!["e".to_string(), "def456".to_string()],
        ],
        content: "Hello, Nostr!".to_string(),
        sig: [0xef; 64],
    }
}

#[test]
fn test_schemaless_roundtrip() {
    let event = sample_event();
    let bytes = schemaless::serialize(&event);
    let back = schemaless::deserialize(&bytes).unwrap();
    assert_eq!(event, back);
}

#[test]
fn cbor_test_packed_roundtrip() {
    let event = sample_event();
    let bytes = packed::serialize(&event);
    let back = packed::deserialize(&bytes).unwrap();
    assert_eq!(event, back);
}

#[test]
fn test_intkey_roundtrip() {
    let event = sample_event();
    let bytes = intkey::serialize(&event);
    let back = intkey::deserialize(&bytes).unwrap();
    assert_eq!(event, back);
}

#[test]
fn cbor_test_size_comparison() {
    let event = sample_event();
    let json_size = binostr::json::serialize(&event).len();
    let schemaless_size = schemaless::serialize(&event).len();
    let packed_size = packed::serialize(&event).len();
    let intkey_size = intkey::serialize(&event).len();
    println!("JSON: {} bytes", json_size);
    println!("CBOR Schemaless: {} bytes", schemaless_size);
    println!("CBOR Packed: {} bytes", packed_size);
    println!("CBOR IntKey: {} bytes", intkey_size);
    assert!(packed_size < schemaless_size);
    assert!(schemaless_size < json_size);
}

#[test]
fn cbor_test_batch_roundtrip() {
    let events = vec![sample_event(), sample_event()];

    let bytes = schemaless::serialize_batch(&events);
    let back = schemaless::deserialize_batch(&bytes).unwrap();
    assert_eq!(events, back);

    let bytes = packed::serialize_batch(&events);
    let back = packed::deserialize_batch(&bytes).unwrap();
    assert_eq!(events, back);

    let bytes = intkey::serialize_batch(&events);
    let back = intkey::deserialize_batch(&bytes).unwrap();
    assert_eq!(events, back);
}

#[test]
fn cbor_packed_stores_hex_as_bytes() {
    let mut event = sample_event();
    event.tags = vec![vec!["abcd".to_string()]];
    let bytes = packed::serialize(&event);
    // the tag value appears as a two-byte byte string: major type 2, length 2
    assert!(bytes.windows(3).any(|w| w == [0x42, 0xab, 0xcd]));
    assert_eq!(packed::deserialize(&bytes).unwrap(), event);
}

#[test]
fn cbor_schemaless_shape_and_errors() {
    let event = sample_event();
    let shape = CborSchemaless::from_event(&event);
    assert_eq!(shape.id, vec![0xab; 32]);
    assert_eq!(shape.into_event().unwrap(), event);
    let mut short = CborSchemaless::from_event(&event);
    short.sig.pop();
    assert!(matches!(short.into_event(), Err(CborError::InvalidLength("sig"))));
    assert!(matches!(packed::deserialize(&[0xa0]), Err(CborError::ExpectedArray)));
    assert!(matches!(intkey::deserialize(&[0xa0]), Err(CborError::MissingField("id"))));
    assert!(matches!(packed::deserialize(&[0x80]), Err(CborError::InvalidLength("event array"))));
}
