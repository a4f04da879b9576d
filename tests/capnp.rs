use binostr::capnp::{
    deserialize_batch, deserialize_batch_packed, deserialize_event, deserialize_event_packed,
    serialize_batch, serialize_batch_packed, serialize_event, serialize_event_packed, pack_tags,
    unpack_tags, CapnpError,
};
use binostr::event::NostrEvent;

fn sample_event() -> NostrEvent {
    NostrEvent {
        id: [0xab; 32],
        pubkey: [0xcd; 32],
        created_at: 1234567890,
        kind: 1,
        tags: vec![
            vec!["p".to_string(), "abc123".to_string()],
            vec!["e".to_string(), "def456".to_string()],
        ],
        content: "Hello, Nostr!".to_string(),
        sig: [0xef; 64],
    }
}

#[test]
fn capnp_test_roundtrip() {
    let event = sample_event();
    let bytes = serialize_event(&event);
    let back = deserialize_event(&bytes).unwrap();
    assert_eq!(event, back);
}

#[test]
fn capnp_test_packed_roundtrip() {
    let event = sample_event();
    let bytes = serialize_event_packed(&event);
    let back = deserialize_event_packed(&bytes).unwrap();
    assert_eq!(event, back);
}

#[test]
fn capnp_test_batch_roundtrip() {
    let events = vec![sample_event(), sample_event()];
    let bytes = serialize_batch(&events);
    let back = deserialize_batch(&bytes).unwrap();
    assert_eq!(events, back);
}

#[test]
fn test_batch_packed_roundtrip() {
    let events = vec![sample_event(), sample_event()];
    let bytes = serialize_batch_packed(&events);
    let back = deserialize_batch_packed(&bytes).unwrap();
    assert_eq!(events, back);
}

#[test]
fn capnp_test_size_comparison() {
    let event = sample_event();
    let capnp_size = serialize_event(&event).len();
    let capnp_packed_size = serialize_event_packed(&event).len();
    let json_size = binostr::json::serialize(&event).len();
    println!("Cap'n Proto:        {} bytes", capnp_size);
    println!("Cap'n Proto Packed: {} bytes", capnp_packed_size);
    println!("JSON:               {} bytes", json_size);
    println!(
        "Packed savings:     {:.1}%",
        100.0 * (1.0 - capnp_packed_size as f64 / capnp_size as f64)
    );
    assert!(capnp_packed_size <= capnp_size);
}

#[test]
fn capnp_tag_blob_layout() {
    let tags = vec![vec!["p".to_string(), "abcd".to_string(), "".to_string()]];
    let blob = pack_tags(&tags);
    assert_eq!(
        blob,
        vec![1, 0, 3, 1, 0, b'p', 2, 0x80, 0xab, 0xcd, 0, 0x80]
    );
    assert_eq!(unpack_tags(&blob).unwrap(), tags);
    assert!(matches!(unpack_tags(&blob[..5]), Err(CapnpError::InvalidTagData("truncated value data"))));
    assert!(matches!(unpack_tags(&[1, 0]), Err(CapnpError::InvalidTagData("truncated tag data"))));
    assert_eq!(unpack_tags(&[7]).unwrap(), Vec::<Vec<String>>::new());
    assert!(matches!(unpack_tags(&[1, 0, 1, 1, 0, 0xff]), Err(CapnpError::InvalidUtf8)));
}

#[test]
fn capnp_rejects_garbage() {
    assert!(deserialize_event(&[1, 2, 3]).is_err());
    assert!(deserialize_batch(&[]).is_err());
}

#[test]
fn capnp_uppercase_hex_comes_back_lowercase() {
    let tags = vec![vec!["DEADBEEF".to_string(), "Hello".to_string()]];
    let back = unpack_tags(&pack_tags(&tags)).unwrap();
    assert_eq!(back, vec![vec!["deadbeef".to_string(), "Hello".to_string()]]);
}
