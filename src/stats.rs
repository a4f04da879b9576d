//! Formats under comparison, and compressed sizes.

use std::io::Write;
use vstd::prelude::*;
use crate::capnp::{capnp_message, capnp_packed_message, event_fits, record_spec};
use crate::dannypack::{encode_spec, packable};
use crate::event::NostrEvent;
use crate::json::event_json_text;
use crate::notepack::notepack_of;
use crate::proto::pb_event;

verus! {

/// Serialization format identifier.
#[derive(Debug, Clone, Copy, PartialEq, Eq, Hash, Structural)]
pub enum Format {
    Json,
    CborSchemaless,
    CborPacked,
    CborPackedNoHexOpt,
    CborIntKey,
    ProtoString,
    ProtoBinary,
    CapnProto,
    CapnProtoPacked,
    DannyPack,
    Notepack,
}

/// The primary formats, in report order.
pub open spec fn primary_formats() -> Seq<Format> {
    seq![
        Format::Json,
        Format::CborSchemaless,
        Format::CborPacked,
        Format::CborIntKey,
        Format::ProtoString,
        Format::ProtoBinary,
        Format::CapnProto,
        Format::CapnProtoPacked,
        Format::DannyPack,
        Format::Notepack,
    ]
}

/// Every format, comparison variants included, in report order.
pub open spec fn every_format() -> Seq<Format> {
    seq![
        Format::Json,
        Format::CborSchemaless,
        Format::CborPacked,
        Format::CborPackedNoHexOpt,
        Format::CborIntKey,
        Format::ProtoString,
        Format::ProtoBinary,
        Format::CapnProto,
        Format::CapnProtoPacked,
        Format::DannyPack,
        Format::Notepack,
    ]
}

impl Format {
    /// All primary formats for benchmarking.
    pub fn all() -> (r: Vec<Format>)
        ensures
            r@ == primary_formats(),
    {
        let r = vec![
            Format::Json,
            Format::CborSchemaless,
            Format::CborPacked,
            Format::CborIntKey,
            Format::ProtoString,
            Format::ProtoBinary,
            Format::CapnProto,
            Format::CapnProtoPacked,
            Format::DannyPack,
            Format::Notepack,
        ];
        assert(r@ =~= primary_formats());
        r
    }

    /// All formats, comparison variants included.
    pub fn all_with_variants() -> (r: Vec<Format>)
        ensures
            r@ == every_format(),
    {
        let r = vec![
            Format::Json,
            Format::CborSchemaless,
            Format::CborPacked,
            Format::CborPackedNoHexOpt,
            Format::CborIntKey,
            Format::ProtoString,
            Format::ProtoBinary,
            Format::CapnProto,
            Format::CapnProtoPacked,
            Format::DannyPack,
            Format::Notepack,
        ];
        assert(r@ =~= every_format());
        r
    }

    /// Display name of the format.
    pub fn name(&self) -> (r: &'static str)
        ensures
            r@ == format_name(*self)@,
    {
        match self {
            Format::Json => "JSON",
            Format::CborSchemaless => "CBOR Schemaless",
            Format::CborPacked => "CBOR Packed",
            Format::CborPackedNoHexOpt => "CBOR Packed (no hex opt)",
            Format::CborIntKey => "CBOR IntKey",
            Format::ProtoString => "Proto String",
            Format::ProtoBinary => "Proto Binary",
            Format::CapnProto => "Cap'n Proto",
            Format::CapnProtoPacked => "Cap'n Packed",
            Format::DannyPack => "DannyPack",
            Format::Notepack => "Notepack",
        }
    }

    /// Short identifier of the format, fit for file names.
    pub fn short_name(&self) -> (r: &'static str)
        ensures
            r@ == format_short_name(*self)@,
    {
        match self {
            Format::Json => "json",
            Format::CborSchemaless => "cbor_schema",
            Format::CborPacked => "cbor_packed",
            Format::CborPackedNoHexOpt => "cbor_no_hex",
            Format::CborIntKey => "cbor_intkey",
            Format::ProtoString => "proto_str",
            Format::ProtoBinary => "proto_bin",
            Format::CapnProto => "capnp",
            Format::CapnProtoPacked => "capnp_pk",
            Format::DannyPack => "dannypack",
            Format::Notepack => "notepack",
        }
    }
}

pub open spec fn format_name(f: Format) -> &'static str {
    match f {
        Format::Json => "JSON",
        Format::CborSchemaless => "CBOR Schemaless",
        Format::CborPacked => "CBOR Packed",
        Format::CborPackedNoHexOpt => "CBOR Packed (no hex opt)",
        Format::CborIntKey => "CBOR IntKey",
        Format::ProtoString => "Proto String",
        Format::ProtoBinary => "Proto Binary",
        Format::CapnProto => "Cap'n Proto",
        Format::CapnProtoPacked => "Cap'n Packed",
        Format::DannyPack => "DannyPack",
        Format::Notepack => "Notepack",
    }
}

pub open spec fn format_short_name(f: Format) -> &'static str {
    match f {
        Format::Json => "json",
        Format::CborSchemaless => "cbor_schema",
        Format::CborPacked => "cbor_packed",
        Format::CborPackedNoHexOpt => "cbor_no_hex",
        Format::CborIntKey => "cbor_intkey",
        Format::ProtoString => "proto_str",
        Format::ProtoBinary => "proto_bin",
        Format::CapnProto => "capnp",
        Format::CapnProtoPacked => "capnp_pk",
        Format::DannyPack => "dannypack",
        Format::Notepack => "notepack",
    }
}

/// Size statistics for a single format.
#[derive(Debug, Clone)]
pub struct SizeStats {
    pub format: Format,
    pub raw_bytes: usize,
    pub gzip_bytes: usize,
    pub zstd_bytes: usize,
}

/// Compressed sizes of one payload at several levels.
#[derive(Debug, Clone)]
pub struct CompressionComparison {
    pub raw_size: usize,
    pub gzip_1: usize,
    pub gzip_6: usize,
    pub gzip_9: usize,
    pub zstd_1: usize,
    pub zstd_3: usize,
    pub zstd_9: usize,
    pub zstd_19: usize,
}

/// Default gzip level for benchmarks: gzip's own default.
pub const DEFAULT_GZIP_LEVEL: u32 = 6;

/// Default zstd level for benchmarks: zstd's own default.
pub const DEFAULT_ZSTD_LEVEL: i32 = 3;

/// Highest gzip level on flate2's documented scale.
pub const MAX_GZIP_LEVEL: u32 = 9;

/// Highest zstd level.
pub const MAX_ZSTD_LEVEL: i32 = 22;

/// Length of the gzip stream flate2 writes for `data` at `level`.
pub uninterp spec fn gzip_len(data: Seq<u8>, level: u32) -> nat;

/// Length of the zstd frame the zstd crate writes for `data` at `level`.
pub uninterp spec fn zstd_len(data: Seq<u8>, level: i32) -> nat;

/// Relies on flate2's `GzEncoder` over a `Vec`: writing into memory does not
/// fail, and the stream it finishes with depends on the data and level alone.
#[verifier::external_body]
pub fn gzip_size_level(data: &[u8], level: u32) -> (r: usize)
    requires
        level <= MAX_GZIP_LEVEL,
    ensures
        r == gzip_len(data@, level),
{
    let mut encoder = flate2::write::GzEncoder::new(Vec::new(), flate2::Compression::new(level));
    encoder.write_all(data).unwrap();
    encoder.finish().unwrap().len()
}

/// Relies on `zstd::encode_all` from a byte slice into memory: it does not
/// fail on a valid level, and the frame depends on the data and level alone.
#[verifier::external_body]
pub fn zstd_size_level(data: &[u8], level: i32) -> (r: usize)
    requires
        1 <= level <= MAX_ZSTD_LEVEL,
    ensures
        r == zstd_len(data@, level),
{
    zstd::encode_all(data, level).unwrap().len()
}

/// Size of `data` compressed with gzip at the default level.
pub fn gzip_size(data: &[u8]) -> (r: usize)
    ensures
        r == gzip_len(data@, DEFAULT_GZIP_LEVEL),
{
    gzip_size_level(data, DEFAULT_GZIP_LEVEL)
}

/// Size of `data` compressed with zstd at the default level.
pub fn zstd_size(data: &[u8]) -> (r: usize)
    ensures
        r == zstd_len(data@, DEFAULT_ZSTD_LEVEL),
{
    zstd_size_level(data, DEFAULT_ZSTD_LEVEL)
}

/// Compressed sizes of `data` at gzip levels 1, 6, 9 and zstd levels 1, 3, 9, 19.
pub fn compare_compression_levels(data: &[u8]) -> (r: CompressionComparison)
    ensures
        r.raw_size == data@.len(),
        r.gzip_1 == gzip_len(data@, 1),
        r.gzip_6 == gzip_len(data@, 6),
        r.gzip_9 == gzip_len(data@, 9),
        r.zstd_1 == zstd_len(data@, 1),
        r.zstd_3 == zstd_len(data@, 3),
        r.zstd_9 == zstd_len(data@, 9),
        r.zstd_19 == zstd_len(data@, 19),
{
    CompressionComparison {
        raw_size: data.len(),
        gzip_1: gzip_size_level(data, 1),
        gzip_6: gzip_size_level(data, 6),
        gzip_9: gzip_size_level(data, 9),
        zstd_1: zstd_size_level(data, 1),
        zstd_3: zstd_size_level(data, 3),
        zstd_9: zstd_size_level(data, 9),
        zstd_19: zstd_size_level(data, 19),
    }
}

/// What every format's encoder asks of an event: at most 255 values per tag
/// (the compact format), and blobs within the Cap'n Proto tag blob's limits.
pub open spec fn measurable(e: NostrEvent) -> bool {
    packable(&e) && event_fits(e)
}

/// Whether every format can encode `event`.
pub fn check_measurable(event: &NostrEvent) -> (r: bool)
    ensures
        r == measurable(*event),
{
    let ghost all = event.tags.deep_view();
    if event.tags.len() > u16::MAX as usize {
        return false;
    }
    let mut i: usize = 0;
    while i < event.tags.len()
        invariant
            i <= event.tags@.len(),
            all == event.tags.deep_view(),
            forall|k: int| 0 <= k < i ==> (#[trigger] all[k]).len() <= 255,
            forall|k: int, j: int| 0 <= k < i && 0 <= j < all[k].len() ==> vstd::utf8::encode_utf8(
                #[trigger] all[k][j],
            ).len() <= crate::capnp::MAX_VALUE_LEN,
        decreases event.tags@.len() - i,
    {
        let tag = &event.tags[i];
        if tag.len() > 255 {
            assert(all[i as int].len() == tag@.len());
            assert(!crate::capnp::tags_fit(all));
            return false;
        }
        let mut j: usize = 0;
        while j < tag.len()
            invariant
                j <= tag@.len(),
                i < all.len(),
                all == event.tags.deep_view(),
                all[i as int] == tag.deep_view(),
                forall|m: int| 0 <= m < j ==> vstd::utf8::encode_utf8(#[trigger] all[i as int][m]).len()
                    <= crate::capnp::MAX_VALUE_LEN,
            decreases tag@.len() - j,
        {
            if tag[j].as_str().as_bytes().len() > crate::capnp::MAX_VALUE_LEN {
                assert(all[i as int][j as int] == tag@[j as int]@);
                assert(!crate::capnp::tags_fit(all));
                return false;
            }
            j = j + 1;
        }
        i = i + 1;
    }
    assert(crate::capnp::tags_fit(all));
    assert forall|k: int| 0 <= k < event.tags@.len() implies (#[trigger] event.tags@[k])@.len() <= 255 by {
        assert(all[k].len() == event.tags@[k]@.len());
    }
    assert(packable(event));
    let blob = crate::capnp::pack_tags(&event.tags);
    blob.len() <= crate::capnp::MAX_LIST_LEN && event.content.as_str().as_bytes().len() <= crate::capnp::MAX_LIST_LEN
}

/// The bytes of `event` in `format`.
pub fn serialize(event: &NostrEvent, format: Format) -> (r: Vec<u8>)
    requires
        measurable(*event),
    ensures
        format == Format::Json ==> r@ == vstd::utf8::encode_utf8(event_json_text(*event)),
        format == Format::ProtoString ==> r@ == pb_event(*event, false),
        format == Format::ProtoBinary ==> r@ == pb_event(*event, true),
        format == Format::CapnProto ==> r@ == capnp_message(seq![record_spec(*event)]),
        format == Format::CapnProtoPacked ==> r@ == capnp_packed_message(seq![record_spec(*event)]),
        format == Format::DannyPack ==> r@ == encode_spec(event@),
        format == Format::Notepack ==> r@ == notepack_of(*event),
{
    match format {
        Format::Json => crate::json::serialize(event),
        Format::CborSchemaless => crate::cbor::schemaless::serialize(event),
        Format::CborPacked => crate::cbor::packed::serialize(event),
        Format::CborPackedNoHexOpt => crate::cbor::packed::serialize_no_hex_opt(event),
        Format::CborIntKey => crate::cbor::intkey::serialize(event),
        Format::ProtoString => crate::proto::string::serialize(event),
        Format::ProtoBinary => crate::proto::binary::serialize(event),
        Format::CapnProto => crate::capnp::serialize_event(event),
        Format::CapnProtoPacked => crate::capnp::serialize_event_packed(event),
        Format::DannyPack => {
            let mut buf: Vec<u8> = Vec::new();
            crate::dannypack::serialize(event, &mut buf);
            assert(buf@ =~= encode_spec(event@));
            buf
        },
        Format::Notepack => crate::notepack::serialize(event),
    }
}

/// What every format's batch encoder asks of a batch: each event measurable,
/// a count within 32 bits (and within Cap'n Proto's list length), and the
/// length-prefixed encodings within 32 bits.
pub open spec fn batch_measurable(events: Seq<NostrEvent>) -> bool {
    &&& events.len() <= crate::capnp::MAX_LIST_LEN
    &&& forall|i: int| 0 <= i < events.len() ==> measurable(#[trigger] events[i])
    &&& forall|i: int| 0 <= i < events.len() ==> encode_spec((#[trigger] events[i])@).len() <= u32::MAX
    &&& forall|i: int| 0 <= i < events.len() ==> notepack_of(#[trigger] events[i]).len() <= u32::MAX
}

/// The bytes of `events` as one batch in `format`; the comparison variant
/// without a batch form of its own is its records one after the other.
pub fn serialize_batch(events: &[NostrEvent], format: Format) -> (r: Vec<u8>)
    requires
        batch_measurable(events@),
    ensures
        format == Format::DannyPack ==> r@ == crate::dannypack::batch_spec(crate::dannypack::models(events@)),
        format == Format::Notepack ==> r@ == crate::notepack::notepack_batch_of(events@),
        format == Format::ProtoString ==> r@ == crate::proto::pb_batch(events@, false),
        format == Format::ProtoBinary ==> r@ == crate::proto::pb_batch(events@, true),
{
    match format {
        Format::Json => crate::json::serialize_batch(events),
        Format::CborSchemaless => crate::cbor::schemaless::serialize_batch(events),
        Format::CborPacked => crate::cbor::packed::serialize_batch(events),
        Format::CborPackedNoHexOpt => {
            let mut buf: Vec<u8> = Vec::new();
            let mut i: usize = 0;
            while i < events.len()
                invariant
                    i <= events@.len(),
                decreases events@.len() - i,
            {
                let one = crate::cbor::packed::serialize_no_hex_opt(&events[i]);
                buf.extend_from_slice(one.as_slice());
                i = i + 1;
            }
            buf
        },
        Format::CborIntKey => crate::cbor::intkey::serialize_batch(events),
        Format::ProtoString => crate::proto::string::serialize_batch(events),
        Format::ProtoBinary => crate::proto::binary::serialize_batch(events),
        Format::CapnProto => crate::capnp::serialize_batch(events),
        Format::CapnProtoPacked => crate::capnp::serialize_batch_packed(events),
        Format::DannyPack => crate::dannypack::serialize_batch(events),
        Format::Notepack => crate::notepack::serialize_batch(events),
    }
}

/// Raw, gzip and zstd sizes of one payload in one format.
fn stats_of(format: Format, data: &Vec<u8>) -> (r: SizeStats)
    ensures
        r.format == format,
        r.raw_bytes == data@.len(),
        r.gzip_bytes == gzip_len(data@, DEFAULT_GZIP_LEVEL),
        r.zstd_bytes == zstd_len(data@, DEFAULT_ZSTD_LEVEL),
{
    SizeStats {
        format,
        raw_bytes: data.len(),
        gzip_bytes: gzip_size(data.as_slice()),
        zstd_bytes: zstd_size(data.as_slice()),
    }
}

/// Size statistics of `event` in each primary format, in report order.
pub fn compute_size_stats(event: &NostrEvent) -> (r: Vec<SizeStats>)
    requires
        measurable(*event),
    ensures
        r@.len() == primary_formats().len(),
        forall|i: int| 0 <= i < r@.len() ==> (#[trigger] r@[i]).format == primary_formats()[i],
{
    let formats = Format::all();
    let mut out: Vec<SizeStats> = Vec::new();
    let mut i: usize = 0;
    while i < formats.len()
        invariant
            formats@ == primary_formats(),
            i <= formats@.len(),
            measurable(*event),
            out@.len() == i,
            forall|k: int| 0 <= k < i ==> (#[trigger] out@[k]).format == primary_formats()[k],
        decreases formats@.len() - i,
    {
        let data = serialize(event, formats[i]);
        out.push(stats_of(formats[i], &data));
        i = i + 1;
    }
    out
}

/// Size statistics of `events` as one batch in each primary format, in report order.
pub fn compute_batch_size_stats(events: &[NostrEvent]) -> (r: Vec<SizeStats>)
    requires
        batch_measurable(events@),
    ensures
        r@.len() == primary_formats().len(),
        forall|i: int| 0 <= i < r@.len() ==> (#[trigger] r@[i]).format == primary_formats()[i],
{
    let formats = Format::all();
    let mut out: Vec<SizeStats> = Vec::new();
    let mut i: usize = 0;
    while i < formats.len()
        invariant
            formats@ == primary_formats(),
            i <= formats@.len(),
            batch_measurable(events@),
            out@.len() == i,
            forall|k: int| 0 <= k < i ==> (#[trigger] out@[k]).format == primary_formats()[k],
        decreases formats@.len() - i,
    {
        let data = serialize_batch(events, formats[i]);
        out.push(stats_of(formats[i], &data));
        i = i + 1;
    }
    out
}

} // verus!
