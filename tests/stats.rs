use binostr::event::NostrEvent;
use binostr::stats::{
    compare_compression_levels, compute_batch_size_stats, compute_size_stats, gzip_size,
    gzip_size_level, serialize, serialize_batch, zstd_size, zstd_size_level, Format,
};

fn sample_event() -> NostrEvent {
    NostrEvent {
        id: [0xab; 32],
        pubkey: [0xcd; 32],
        created_at: 1234567890,
        kind: 1,
        tags: vec![
            vec!["p".to_string(), "abc123".to_string()],
            vec!["e".to_string(), "def456".to_string()],
        ],
        content: "Hello, Nostr!".to_string(),
        sig: [0xef; 64],
    }
}

#[test]
fn test_size_stats() {
    let event = sample_event();
    let stats = compute_size_stats(&event);
    assert_eq!(stats.len(), 10);
    for stat in &stats {
        assert!(stat.raw_bytes > 0);
        assert!(stat.gzip_bytes > 0);
        assert!(stat.zstd_bytes > 0);
    }
}

#[test]
fn batch_size_stats_cover_primary_formats() {
    let events = vec![sample_event(), sample_event()];
    let stats = compute_batch_size_stats(&events);
    let formats: Vec<Format> = stats.iter().map(|s| s.format).collect();
    assert_eq!(formats, Format::all());
    let dp = serialize_batch(&events, Format::DannyPack);
    assert_eq!(stats[8].raw_bytes, dp.len());
    assert_eq!(stats[8].gzip_bytes, gzip_size(&dp));
}

#[test]
fn format_lists_and_names() {
    assert_eq!(Format::all().len(), 10);
    assert_eq!(Format::all_with_variants().len(), 11);
    assert!(!Format::all().contains(&Format::CborPackedNoHexOpt));
    assert_eq!(Format::CapnProto.name(), "Cap'n Proto");
    assert_eq!(Format::CborPackedNoHexOpt.name(), "CBOR Packed (no hex opt)");
    assert_eq!(Format::ProtoBinary.short_name(), "proto_bin");
    assert_eq!(Format::DannyPack.short_name(), "dannypack");
}

#[test]
fn serialize_dispatches_by_format() {
    let event = sample_event();
    assert_eq!(serialize(&event, Format::Json), binostr::json::serialize(&event));
    let mut dp = Vec::new();
    binostr::dannypack::serialize(&event, &mut dp);
    assert_eq!(serialize(&event, Format::DannyPack), dp);
    assert!(serialize(&event, Format::CborPackedNoHexOpt).len() > serialize(&event, Format::CborPacked).len());
    let events = vec![sample_event(), sample_event()];
    let one = serialize(&event, Format::CborPackedNoHexOpt);
    assert_eq!(serialize_batch(&events, Format::CborPackedNoHexOpt).len(), 2 * one.len());
}

#[test]
fn compression_levels() {
    let data = "Lorem ipsum dolor sit amet. ".repeat(100).into_bytes();
    let c = compare_compression_levels(&data);
    assert_eq!(c.raw_size, data.len());
    assert_eq!(c.gzip_6, gzip_size(&data));
    assert_eq!(c.zstd_3, zstd_size(&data));
    assert_eq!(c.gzip_9, gzip_size_level(&data, 9));
    assert_eq!(c.zstd_19, zstd_size_level(&data, 19));
    assert!(c.gzip_6 < data.len());
    assert!(c.zstd_3 < data.len());
}
