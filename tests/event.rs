use binostr::event::{NostrEvent, NostrEventJson, SizeCategory, TagCategory};

fn sample_event() -> NostrEvent {
    NostrEvent {
        id: [0u8; 32],
        pubkey: [1u8; 32],
        created_at: 1234567890,
        kind: 1,
        tags: vec![
            vec!["p".to_string(), "abc123".to_string()],
            vec![
                "e".to_string(),
                "def456".to_string(),
                "wss://relay.example.com".to_string(),
            ],
        ],
        content: "Hello, Nostr!".to_string(),
        sig: [2u8; 64],
    }
}

#[test]
fn test_hex_roundtrip() {
    let event = sample_event();
    let json = NostrEventJson::from(&event);
    let back: NostrEvent = json.try_into().unwrap();
    assert_eq!(event, back);
}

#[test]
fn test_size_category() {
    let event = sample_event();
    assert_eq!(event.size_category(), SizeCategory::Tiny);
}

#[test]
fn test_tag_category() {
    let event = sample_event();
    assert_eq!(event.tag_category(), TagCategory::Few);
}

#[test]
fn estimated_json_size_formula() {
    let event = sample_event();
    // 371 fixed, content 13 + 1, tags (4 + 4 + 9) + (4 + 4 + 9 + 26)
    assert_eq!(event.estimated_json_size(), 371 + 14 + 17 + 43);
    let mut big = sample_event();
    big.content = "x".repeat(2000);
    assert_eq!(big.size_category(), SizeCategory::Medium);
    big.content = "x".repeat(200_000);
    assert_eq!(big.size_category(), SizeCategory::Huge);
}

#[test]
fn tag_categories_by_count() {
    let mut event = sample_event();
    event.tags = vec![];
    assert_eq!(event.tag_category(), TagCategory::Untagged);
    assert_eq!(event.tag_count(), 0);
    event.tags = vec![vec![]; 21];
    assert_eq!(event.tag_category(), TagCategory::Many);
    event.tags = vec![vec![]; 101];
    assert_eq!(event.tag_category(), TagCategory::Massive);
    assert_eq!(TagCategory::Few.label(), "few (1-5)");
    assert_eq!(SizeCategory::Tiny.label(), "tiny (<500B)");
}

#[test]
fn hex_accessors_and_from_hex() {
    let event = sample_event();
    assert_eq!(event.pubkey_hex(), "01".repeat(32));
    assert_eq!(event.sig_hex(), "02".repeat(64));
    let back = NostrEvent::from_hex(
        &event.id_hex(),
        &"0A".repeat(32),
        5,
        7,
        vec![],
        "c".to_string(),
        &event.sig_hex(),
    )
    .unwrap();
    assert_eq!(back.pubkey, [0x0a; 32]);
    assert!(NostrEvent::from_hex("abc", "", 0, 0, vec![], String::new(), "").is_err());
    assert_eq!(
        NostrEvent::from_hex("abcd", &"00".repeat(32), 0, 0, vec![], String::new(), &"00".repeat(64)).unwrap_err(),
        hex::FromHexError::InvalidStringLength
    );
}
