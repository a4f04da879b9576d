use binostr::dannypack::{deserialize, deserialize_batch, deserialize_into, serialize, serialize_batch};
use binostr::event::NostrEvent;
use binostr::wire::DannyPackError;

fn sample_event() -> NostrEvent {
    NostrEvent {
        id: [0xab; 32],
        pubkey: [0xcd; 32],
        created_at: 1234567890,
        kind: 1,
        tags: vec![
            vec!["p".to_string(), "abcd1234".to_string()],
            vec!["e".to_string(), "deadbeef".to_string()],
        ],
        content: "Hello, Nostr!".to_string(),
        sig: [0xef; 64],
    }
}

fn sample_event_hex_content() -> NostrEvent {
    NostrEvent {
        id: [0xab; 32],
        pubkey: [0xcd; 32],
        created_at: 1234567890,
        kind: 1,
        tags: vec![],
        content: "deadbeefcafe1234".to_string(),
        sig: [0xef; 64],
    }
}

fn encode(event: &NostrEvent) -> Vec<u8> {
    let mut bytes = Vec::new();
    serialize(event, &mut bytes);
    bytes
}

fn with_tags(tags: Vec<Vec<&str>>, content: &str) -> NostrEvent {
    NostrEvent {
        id: [0x11; 32],
        pubkey: [0x22; 32],
        created_at: 1700000000,
        kind: 1,
        tags: tags
            .into_iter()
            .map(|t| t.into_iter().map(|s| s.to_string()).collect())
            .collect(),
        content: content.to_string(),
        sig: [0x33; 64],
    }
}

#[test]
fn dannypack_test_roundtrip() {
    let event = sample_event();
    let bytes = encode(&event);
    let back = deserialize(&bytes).unwrap();
    assert_eq!(event, back);
}

#[test]
fn test_roundtrip_hex_content() {
    let event = sample_event_hex_content();
    let bytes = encode(&event);
    let back = deserialize(&bytes).unwrap();
    assert_eq!(event, back);

    let non_hex = sample_event();
    let non_hex_bytes = encode(&non_hex);
    println!("Normal content: {} bytes", non_hex_bytes.len());
    println!("Hex content:    {} bytes", bytes.len());
}

#[test]
fn dannypack_test_batch_roundtrip() {
    let events = vec![sample_event(), sample_event_hex_content()];
    let bytes = serialize_batch(&events);
    let back = deserialize_batch(&bytes).unwrap();
    assert_eq!(events, back);
}

#[test]
fn dannypack_test_size_comparison() {
    let event = sample_event();
    let dannypack_size = encode(&event).len();
    let json_size = binostr::json::serialize(&event).len();
    println!("DannyPack: {} bytes", dannypack_size);
    println!("JSON:      {} bytes", json_size);
    println!(
        "Savings:   {:.1}%",
        100.0 * (1.0 - dannypack_size as f64 / json_size as f64)
    );
}

#[test]
fn fixed_block_layout() {
    let mut event = sample_event();
    event.created_at = -2;
    event.kind = 0x1234;
    event.tags = vec![];
    event.content = String::new();
    let bytes = encode(&event);
    assert_eq!(&bytes[0..32], &[0xab; 32]);
    assert_eq!(&bytes[32..64], &[0xcd; 32]);
    assert_eq!(&bytes[64..128], &[0xef; 64]);
    assert_eq!(&bytes[128..136], &[0xfe, 0xff, 0xff, 0xff, 0xff, 0xff, 0xff, 0xff]);
    assert_eq!(&bytes[136..138], &[0x34, 0x12]);
    // tag section of one byte (a zero count), then an empty literal run
    assert_eq!(&bytes[138..], &[0x01, 0x00, 0x00]);
}

#[test]
fn hex_case_is_preserved() {
    let upper = with_tags(vec![vec!["p", "DEADBEEF"]], "");
    let lower = with_tags(vec![vec!["p", "deadbeef"]], "");
    let upper_bytes = encode(&upper);
    let lower_bytes = encode(&lower);
    assert_eq!(deserialize(&upper_bytes).unwrap(), upper);
    assert_eq!(deserialize(&lower_bytes).unwrap(), lower);
    assert!(lower_bytes.len() < upper_bytes.len());
    // the uppercase value is stored as literal text
    let run = &upper_bytes[upper_bytes.len() - 10..];
    assert_eq!(run, &[0x08, b'D', b'E', b'A', b'D', b'B', b'E', b'E', b'F', 0x00][..]);
    // the lowercase value is stored as four bytes behind a flagged header
    let run = &lower_bytes[lower_bytes.len() - 6..];
    assert_eq!(run, &[0x84, 0xde, 0xad, 0xbe, 0xef, 0x00][..]);
}

#[test]
fn short_hex_value_stays_literal() {
    let event = with_tags(vec![vec!["ab"]], "ab");
    let bytes = encode(&event);
    // count varint, value count, literal run of two bytes
    assert_eq!(&bytes[138..], &[0x05, 0x01, 0x01, 0x02, b'a', b'b', 0x02, b'a', b'b']);
    assert_eq!(deserialize(&bytes).unwrap(), event);
}

#[test]
fn concrete_record_length() {
    let event = with_tags(vec![vec!["p", "abcd1234"], vec!["e", "deadbeefcafe"]], "Hello!");
    let bytes = encode(&event);
    // tag section: count (1) + 2 x (value count (1) + "p"/"e" run (2)) + runs of 4 and 6 bytes
    let tag_section = 1 + (1 + 2 + 1 + 4) + (1 + 2 + 1 + 6);
    assert_eq!(tag_section, 19);
    // fixed block, tag section length varint, tag section, content header and bytes
    assert_eq!(bytes.len(), 138 + 1 + tag_section + 1 + 6);
    assert_eq!(bytes.len(), 165);
    assert_eq!(&bytes[143..148], &[0x84, 0xab, 0xcd, 0x12, 0x34]);
    assert_eq!(&bytes[151..158], &[0x86, 0xde, 0xad, 0xbe, 0xef, 0xca, 0xfe]);
    assert_eq!(deserialize(&bytes).unwrap(), event);
}

#[test]
fn every_strict_prefix_is_rejected() {
    let event = with_tags(vec![vec!["p", "abcd1234"], vec!["e", "deadbeefcafe", "wss://x"]], "Hello, ünïcödé!");
    let bytes = encode(&event);
    for k in 0..bytes.len() {
        assert!(deserialize(&bytes[..k]).is_err(), "prefix of {} bytes decoded", k);
    }
    assert_eq!(deserialize(&bytes[..138]).unwrap_err(), DannyPackError::TooShort);
    assert_eq!(deserialize(&bytes).unwrap(), event);
}

#[test]
fn empty_edge_cases_roundtrip() {
    let empty = with_tags(vec![], "");
    assert_eq!(deserialize(&encode(&empty)).unwrap(), empty);
    let single_empty_tag = with_tags(vec![vec![]], "");
    assert_eq!(deserialize(&encode(&single_empty_tag)).unwrap(), single_empty_tag);
}

#[test]
fn long_values_use_varint_lengths() {
    let long = "x".repeat(300);
    let long_hex = "ab".repeat(200);
    let event = with_tags(vec![vec![long.as_str(), long_hex.as_str()]], &long);
    let bytes = encode(&event);
    assert_eq!(deserialize(&bytes).unwrap(), event);
    let at_edge = "y".repeat(127);
    let event = with_tags(vec![vec![at_edge.as_str()]], &"z".repeat(126));
    assert_eq!(deserialize(&encode(&event)).unwrap(), event);
}

#[test]
fn batch_keeps_order_and_fails_whole() {
    let r1 = with_tags(vec![vec!["t", "one"]], "first");
    let r2 = with_tags(vec![vec!["p", "abcd1234abcd1234"]], "second");
    let r3 = with_tags(vec![], "third ✓");
    let events = vec![r1.clone(), r2.clone(), r3.clone()];
    let bytes = serialize_batch(&events);
    assert_eq!(deserialize_batch(&bytes).unwrap(), events);
    let first_len = u32::from_le_bytes(bytes[4..8].try_into().unwrap()) as usize;
    let second_prefix = 8 + first_len;
    let mut corrupt = bytes.clone();
    corrupt[second_prefix..second_prefix + 4].copy_from_slice(&u32::MAX.to_le_bytes());
    assert_eq!(deserialize_batch(&corrupt).unwrap_err(), DannyPackError::TooShort);
    assert_eq!(deserialize_batch(&bytes[..3]).unwrap_err(), DannyPackError::TooShort);
}

#[test]
fn invalid_utf8_is_rejected() {
    let event = with_tags(vec![], "ok");
    let mut bytes = encode(&event);
    let n = bytes.len();
    bytes[n - 1] = 0xff;
    assert_eq!(deserialize(&bytes).unwrap_err(), DannyPackError::InvalidUtf8);
    let event = with_tags(vec![vec!["ok"]], "");
    let mut bytes = encode(&event);
    bytes[143] = 0xff;
    assert_eq!(deserialize(&bytes).unwrap_err(), DannyPackError::InvalidUtf8);
}

#[test]
fn inconsistent_tags_are_rejected() {
    let event = with_tags(vec![vec!["abc"]], "");
    let mut bytes = encode(&event);
    // the value's header claims more bytes than the tag section holds
    bytes[141] = 0x05;
    assert_eq!(deserialize(&bytes).unwrap_err(), DannyPackError::InvalidTagData);
}

#[test]
fn overlong_varint_is_rejected() {
    let event = with_tags(vec![], "");
    let bytes = encode(&event);
    let mut bad = bytes[..138].to_vec();
    bad.extend_from_slice(&[0xff; 10]);
    bad.push(0x01);
    assert_eq!(deserialize(&bad).unwrap_err(), DannyPackError::InvalidVarint);
}

#[test]
fn deserialize_into_overwrites() {
    let event = sample_event();
    let bytes = encode(&event);
    let mut target = with_tags(vec![vec!["a", "b", "c"], vec![]], "old content");
    deserialize_into(&bytes, &mut target).unwrap();
    assert_eq!(target, event);
    let before = target.clone();
    assert!(deserialize_into(&bytes[..10], &mut target).is_err());
    assert_eq!(target, before);
}
