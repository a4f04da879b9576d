use binostr::{capnp, cbor, dannypack, json, notepack, proto, NostrEvent};

/// Generate a variety of edge case events for testing
fn generate_edge_case_events() -> Vec<NostrEvent> {
    vec![
        // Empty content
        NostrEvent {
            id: [0x11; 32],
            pubkey: [0x22; 32],
            created_at: 1700000000,
            kind: 1,
            tags: vec![vec!["p".to_string(), hex::encode([0xab; 32])]],
            content: String::new(),
            sig: [0x33; 64],
        },
        // Empty tags
        NostrEvent {
            id: [0x44; 32],
            pubkey: [0x55; 32],
            created_at: 1700000001,
            kind: 0,
            tags: vec![],
            content: r#"{"name":"test"}"#.to_string(),
            sig: [0x66; 64],
        },
        // Unicode content with emojis
        NostrEvent {
            id: [0x77; 32],
            pubkey: [0x88; 32],
            created_at: 1700000002,
            kind: 1,
            tags: vec![vec!["t".to_string(), "nostr".to_string()]],
            content: "Hello üåç! „Åì„Çì„Å´„Å°„ÅØ ‰∏ñÁïå üöÄ √©mojis ‰∏≠Êñá".to_string(),
            sig: [0x99; 64],
        },
        // Very long content (simulated article)
        NostrEvent {
            id: [0xaa; 32],
            pubkey: [0xbb; 32],
            created_at: 1700000003,
            kind: 30023,
            tags: vec![
                vec!["d".to_string(), "test-article".to_string()],
                vec!["title".to_string(), "Test Article".to_string()],
            ],
            content: "# Long Article\n\n".to_string() + &"Lorem ipsum dolor sit amet. ".repeat(1000),
            sig: [0xcc; 64],
        },
        // Many tags (simulated follow list)
        NostrEvent {
            id: [0xdd; 32],
            pubkey: [0xee; 32],
            created_at: 1700000004,
            kind: 3,
            tags: (0..200)
                .map(|i| {
                    vec![
                        "p".to_string(),
                        hex::encode([i as u8; 32]),
                        "wss://relay.example.com".to_string(),
                    ]
                })
                .collect(),
            content: String::new(),
            sig: [0xff; 64],
        },
        // Maximum kind value
        NostrEvent {
            id: [0x12; 32],
            pubkey: [0x34; 32],
            created_at: 1700000005,
            kind: 65535,
            tags: vec![],
            content: "Max kind event".to_string(),
            sig: [0x56; 64],
        },
        // Minimum timestamp (Unix epoch)
        NostrEvent {
            id: [0x78; 32],
            pubkey: [0x9a; 32],
            created_at: 0,
            kind: 1,
            tags: vec![],
            content: "Epoch event".to_string(),
            sig: [0xbc; 64],
        },
        // Negative timestamp (pre-1970, theoretical)
        NostrEvent {
            id: [0xde; 32],
            pubkey: [0xf0; 32],
            created_at: -86400, // One day before epoch
            kind: 1,
            tags: vec![],
            content: "Pre-epoch event".to_string(),
            sig: [0x13; 64],
        },
        // Content with JSON escaping characters
        NostrEvent {
            id: [0x24; 32],
            pubkey: [0x35; 32],
            created_at: 1700000006,
            kind: 1,
            tags: vec![],
            content: "Line1\nLine2\tTabbed\r\nWindows\\ \"quoted\" \u{0000}null".to_string(),
            sig: [0x46; 64],
        },
        // Hex-looking content (tests CBOR/DannyPack hex detection)
        NostrEvent {
            id: [0x57; 32],
            pubkey: [0x68; 32],
            created_at: 1700000007,
            kind: 1,
            tags: vec![],
            content: "abcdef1234567890".to_string(), // Valid hex string
            sig: [0x79; 64],
        },
        // Tags with various value types
        NostrEvent {
            id: [0x8a; 32],
            pubkey: [0x9b; 32],
            created_at: 1700000008,
            kind: 1,
            tags: vec![
                vec!["e".to_string(), hex::encode([0x11; 32]), "".to_string()], // Empty relay hint
                vec!["p".to_string(), hex::encode([0x22; 32])],
                vec!["t".to_string(), "hashtag".to_string()],
                vec!["r".to_string(), "https://example.com".to_string()],
                vec![
                    "a".to_string(),
                    "30023:abc:def".to_string(),
                    "wss://relay.example.com".to_string(),
                ],
                vec!["single".to_string()], // Single-element tag
            ],
            content: "Event with various tags".to_string(),
            sig: [0xac; 64],
        },
        // Reaction event (tiny)
        NostrEvent {
            id: [0xbd; 32],
            pubkey: [0xce; 32],
            created_at: 1700000009,
            kind: 7,
            tags: vec![
                vec!["e".to_string(), hex::encode([0x33; 32])],
                vec!["p".to_string(), hex::encode([0x44; 32])],
            ],
            content: "ü§ô".to_string(),
            sig: [0xdf; 64],
        },
    ]
}


fn dannypack_bytes(event: &NostrEvent) -> Vec<u8> {
    let mut buf = Vec::new();
    dannypack::serialize(event, &mut buf);
    buf
}

#[test]
fn dannypack_roundtrip_edge_cases() {
    for (i, event) in generate_edge_case_events().iter().enumerate() {
        let bytes = dannypack_bytes(event);
        let back = dannypack::deserialize(&bytes)
            .unwrap_or_else(|e| panic!("Failed to deserialize edge case {}: {:?}", i, e));
        assert_eq!(event, &back, "Edge case {} roundtrip failed", i);
    }
}

#[test]
fn dannypack_batch_roundtrip() {
    let events = generate_edge_case_events();
    let serialized = dannypack::serialize_batch(&events);
    let deserialized = dannypack::deserialize_batch(&serialized).unwrap();
    assert_eq!(events, deserialized);
}

#[test]
fn json_roundtrip_edge_cases() {
    for (i, event) in generate_edge_case_events().iter().enumerate() {
        let back = json::deserialize(&json::serialize(event))
            .unwrap_or_else(|e| panic!("Failed to deserialize edge case {}: {:?}", i, e));
        assert_eq!(event, &back, "Edge case {} roundtrip failed", i);
    }
}

#[test]
fn json_batch_roundtrip() {
    let events = generate_edge_case_events();
    let deserialized = json::deserialize_batch(&json::serialize_batch(&events)).unwrap();
    assert_eq!(events, deserialized);
}

#[test]
fn notepack_roundtrip_edge_cases() {
    for (i, event) in generate_edge_case_events().iter().enumerate() {
        let back = notepack::deserialize(&notepack::serialize(event))
            .unwrap_or_else(|e| panic!("Failed to deserialize edge case {}: {:?}", i, e));
        assert_eq!(event, &back, "Edge case {} roundtrip failed", i);
    }
}

#[test]
fn all_formats_equivalent() {
    let events = generate_edge_case_events();
    for (i, event) in events.iter().enumerate() {
        let from_json = json::deserialize(&json::serialize(event)).unwrap();
        let from_cbor_schemaless = cbor::schemaless::deserialize(&cbor::schemaless::serialize(event)).unwrap();
        let from_cbor_packed = cbor::packed::deserialize(&cbor::packed::serialize(event)).unwrap();
        let from_cbor_intkey = cbor::intkey::deserialize(&cbor::intkey::serialize(event)).unwrap();
        let from_proto_string = proto::string::deserialize(&proto::string::serialize(event)).unwrap();
        let from_proto_binary = proto::binary::deserialize(&proto::binary::serialize(event)).unwrap();
        let from_capnp = capnp::deserialize_event(&capnp::serialize_event(event)).unwrap();
        let from_capnp_packed = capnp::deserialize_event_packed(&capnp::serialize_event_packed(event)).unwrap();
        let from_dannypack = dannypack::deserialize(&dannypack_bytes(event)).unwrap();

        assert_eq!(event, &from_json, "JSON mismatch at event {}", i);
        assert_eq!(event, &from_cbor_schemaless, "CBOR Schemaless mismatch at event {}", i);
        assert_eq!(event, &from_cbor_packed, "CBOR Packed mismatch at event {}", i);
        assert_eq!(event, &from_cbor_intkey, "CBOR IntKey mismatch at event {}", i);
        assert_eq!(event, &from_proto_string, "Proto String mismatch at event {}", i);
        assert_eq!(event, &from_proto_binary, "Proto Binary mismatch at event {}", i);
        assert_eq!(event, &from_capnp, "Cap'n Proto mismatch at event {}", i);
        assert_eq!(event, &from_capnp_packed, "Cap'n Proto Packed mismatch at event {}", i);
        assert_eq!(event, &from_dannypack, "DannyPack mismatch at event {}", i);
    }
}
