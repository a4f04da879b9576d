use binostr::event::NostrEvent;
use binostr::json::{deserialize, deserialize_batch, serialize, serialize_batch, serialize_compact, serialize_string};

fn sample_event() -> NostrEvent {
    NostrEvent {
        id: [0xab; 32],
        pubkey: [0xcd; 32],
        created_at: 1234567890,
        kind: 1,
        tags: vec![
            vec!["p".to_string(), "abc123".to_string()],
            vec!["e".to_string(), "def456".to_string()],
        ],
        content: "Hello, Nostr!".to_string(),
        sig: [0xef; 64],
    }
}

#[test]
fn json_test_roundtrip() {
    let event = sample_event();
    let bytes = serialize(&event);
    let back = deserialize(&bytes).unwrap();
    assert_eq!(event, back);
}

#[test]
fn json_test_batch_roundtrip() {
    let events = vec![sample_event(), sample_event()];
    let bytes = serialize_batch(&events);
    let back = deserialize_batch(&bytes).unwrap();
    assert_eq!(events, back);
}

#[test]
fn test_json_format() {
    let event = sample_event();
    let json = serialize_string(&event);
    assert!(json.contains("\"id\":"));
    assert!(json.contains("\"pubkey\":"));
    assert!(json.contains("\"created_at\":"));
    assert!(json.contains("\"kind\":"));
    assert!(json.contains("\"tags\":"));
    assert!(json.contains("\"content\":"));
    assert!(json.contains("\"sig\":"));
}

#[test]
fn json_exact_text() {
    let mut event = sample_event();
    event.created_at = -86400;
    event.content = "Line1\n\"q\"".to_string();
    let text = serialize_string(&event);
    let expected = format!(
        "{{\"id\":\"{}\",\"pubkey\":\"{}\",\"created_at\":-86400,\"kind\":1,\"tags\":[[\"p\",\"abc123\"],[\"e\",\"def456\"]],\"content\":\"Line1\\n\\\"q\\\"\",\"sig\":\"{}\"}}",
        "ab".repeat(32),
        "cd".repeat(32),
        "ef".repeat(64)
    );
    assert_eq!(text, expected);
    assert_eq!(serialize_compact(&event), expected.into_bytes());
    assert_eq!(deserialize(&serialize(&event)).unwrap(), event);
    assert_eq!(serialize_batch(&[]), b"[]".to_vec());
}

#[test]
fn json_rejects_bad_documents() {
    assert!(deserialize(b"not json").is_err());
    assert!(deserialize(b"{\"id\":\"00\"}").is_err());
    let mut text = serialize_string(&sample_event());
    text = text.replace("\"kind\":1", "\"kind\":70000");
    assert!(deserialize(text.as_bytes()).is_err());
}
