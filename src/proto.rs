//! Protocol Buffers serialization, through `prost`'s field encoders and decoders.
//!
//! Schema (proto3):
//!
//! ```text
//! message Tag        { repeated string values = 1; }
//! message ProtoEvent { string id = 1; string pubkey = 2; int64 created_at = 3; int32 kind = 4;
//!                      repeated Tag tags = 5; string content = 6; string sig = 7; }
//! message EventBatch { repeated ProtoEvent events = 1; }
//! ```
//!
//! The binary variant has `bytes` in place of `string` for id, pubkey and sig.
//! As in proto3, fields that hold their default value are not written.

pub mod binary;
pub mod string;

use vstd::prelude::*;
use vstd::utf8::encode_utf8;
use crate::event::NostrEvent;
use crate::hexstr::{hex_decode, hex_encode, hex_text};
use crate::wire::varint_spec;

verus! {

#[verifier::external_type_specification]
#[verifier::external_body]
pub struct ExDecodeError(prost::DecodeError);

#[verifier::external_type_specification]
#[verifier::external_body]
pub struct ExWireType(prost::encoding::WireType);

/// Errors of the Protocol Buffers adapter.
#[derive(Debug)]
pub enum ProtoError {
    /// prost rejected the bytes.
    Decode(prost::DecodeError),
    /// A hex field does not decode.
    Hex(hex::FromHexError),
    /// The named field has the wrong size.
    InvalidLength(&'static str),
    /// The kind does not fit in 16 bits.
    KindOutOfRange(i32),
}

pub const WIRE_VARINT: u64 = 0;
pub const WIRE_LEN: u64 = 2;

/// A field key: the tag and wire type as a varint.
pub open spec fn pb_key(tag: nat, wire: nat) -> Seq<u8> {
    varint_spec(tag * 8 + wire)
}

/// A length-delimited field.
pub open spec fn pb_len_field(tag: nat, b: Seq<u8>) -> Seq<u8> {
    pb_key(tag, WIRE_LEN as nat) + varint_spec(b.len()) + b
}

/// A varint field.
pub open spec fn pb_varint_field(tag: nat, v: u64) -> Seq<u8> {
    pb_key(tag, WIRE_VARINT as nat) + varint_spec(v as nat)
}

/// A length-delimited field, left out when empty.
pub open spec fn pb_opt_len(tag: nat, b: Seq<u8>) -> Seq<u8> {
    if b.len() == 0 { Seq::empty() } else { pb_len_field(tag, b) }
}

/// A varint field, left out when zero.
pub open spec fn pb_opt_varint(tag: nat, v: u64) -> Seq<u8> {
    if v == 0 { Seq::empty() } else { pb_varint_field(tag, v) }
}

/// A `Tag` message: each value as field 1.
pub open spec fn pb_tag_message(vals: Seq<Seq<char>>) -> Seq<u8>
    decreases vals.len(),
{
    if vals.len() == 0 {
        Seq::empty()
    } else {
        pb_tag_message(vals.drop_last()) + pb_len_field(1, encode_utf8(vals.last()))
    }
}

/// The `tags` field: each tag as a field 5 message.
pub open spec fn pb_tags(tags: Seq<Seq<Seq<char>>>) -> Seq<u8>
    decreases tags.len(),
{
    if tags.len() == 0 {
        Seq::empty()
    } else {
        pb_tags(tags.drop_last()) + pb_len_field(5, pb_tag_message(tags.last()))
    }
}

/// Bytes of the id, pubkey or sig field: hex text in the string variant, raw in the binary one.
pub open spec fn key_field(b: Seq<u8>, binary: bool) -> Seq<u8> {
    if binary { b } else { encode_utf8(hex_text(b)) }
}

/// The `ProtoEvent` message of an event.
pub open spec fn pb_event(e: NostrEvent, binary: bool) -> Seq<u8> {
    pb_opt_len(1, key_field(e.id@, binary)) + pb_opt_len(2, key_field(e.pubkey@, binary))
        + pb_opt_varint(3, e.created_at as u64) + pb_opt_varint(4, e.kind as u64)
        + pb_tags(e.tags.deep_view()) + pb_opt_len(6, encode_utf8(e.content@))
        + pb_opt_len(7, key_field(e.sig@, binary))
}

/// The `EventBatch` message of some events.
pub open spec fn pb_batch(events: Seq<NostrEvent>, binary: bool) -> Seq<u8>
    decreases events.len(),
{
    if events.len() == 0 {
        Seq::empty()
    } else {
        pb_batch(events.drop_last(), binary) + pb_len_field(1, pb_event(events.last(), binary))
    }
}

/// Relies on `prost::encoding::encode_key`: the varint of `tag << 3 | wire type`.
#[verifier::external_body]
fn put_len_key(tag: u32, buf: &mut Vec<u8>)
    requires
        1 <= tag < 0x2000_0000,
    ensures
        final(buf)@ == old(buf)@ + pb_key(tag as nat, WIRE_LEN as nat),
{
    prost::encoding::encode_key(tag, prost::encoding::WireType::LengthDelimited, buf)
}

/// Relies on `prost::encoding::encode_varint`: LEB128, seven bits per byte.
#[verifier::external_body]
fn put_varint(v: u64, buf: &mut Vec<u8>)
    ensures
        final(buf)@ == old(buf)@ + varint_spec(v as nat),
{
    prost::encoding::encode_varint(v, buf)
}

/// Relies on `prost::encoding::string::encode`: key, length, UTF-8 bytes.
#[verifier::external_body]
fn put_string(tag: u32, s: &String, buf: &mut Vec<u8>)
    requires
        1 <= tag < 0x2000_0000,
    ensures
        final(buf)@ == old(buf)@ + pb_len_field(tag as nat, encode_utf8(s@)),
{
    prost::encoding::string::encode(tag, s, buf)
}

/// Relies on `prost::encoding::bytes::encode`: key, length, bytes.
#[verifier::external_body]
fn put_bytes(tag: u32, b: &Vec<u8>, buf: &mut Vec<u8>)
    requires
        1 <= tag < 0x2000_0000,
    ensures
        final(buf)@ == old(buf)@ + pb_len_field(tag as nat, b@),
{
    prost::encoding::bytes::encode(tag, b, buf)
}

/// Relies on `prost::encoding::int64::encode`: key, then the value's bits as a varint.
#[verifier::external_body]
fn put_int64(tag: u32, v: i64, buf: &mut Vec<u8>)
    requires
        1 <= tag < 0x2000_0000,
    ensures
        final(buf)@ == old(buf)@ + pb_varint_field(tag as nat, v as u64),
{
    prost::encoding::int64::encode(tag, &v, buf)
}

/// Relies on `prost::encoding::int32::encode`: key, then the value sign-extended
/// to 64 bits as a varint.
#[verifier::external_body]
fn put_int32(tag: u32, v: i32, buf: &mut Vec<u8>)
    requires
        1 <= tag < 0x2000_0000,
    ensures
        final(buf)@ == old(buf)@ + pb_varint_field(tag as nat, v as i64 as u64),
{
    prost::encoding::int32::encode(tag, &v, buf)
}

/// Appends a `Tag` message.
fn put_tag_message(tag: &Vec<String>, buf: &mut Vec<u8>)
    ensures
        final(buf)@ == old(buf)@ + pb_tag_message(tag.deep_view()),
{
    let ghost vals = tag.deep_view();
    let mut j: usize = 0;
    while j < tag.len()
        invariant
            j <= tag@.len(),
            vals == tag.deep_view(),
            buf@ == old(buf)@ + pb_tag_message(vals.take(j as int)),
        decreases tag@.len() - j,
    {
        put_string(1, &tag[j], buf);
        proof {
            assert(vals.take(j + 1).drop_last() =~= vals.take(j as int));
            assert(buf@ =~= old(buf)@ + pb_tag_message(vals.take(j + 1)));
        }
        j = j + 1;
    }
    assert(vals.take(j as int) =~= vals);
}

/// Appends a length-delimited field whose content is `body`.
fn put_message(tag: u32, body: &Vec<u8>, buf: &mut Vec<u8>)
    requires
        1 <= tag < 0x2000_0000,
    ensures
        final(buf)@ == old(buf)@ + pb_len_field(tag as nat, body@),
{
    put_len_key(tag, buf);
    put_varint(body.len() as u64, buf);
    buf.extend_from_slice(body.as_slice());
    assert(buf@ =~= old(buf)@ + pb_len_field(tag as nat, body@));
}

/// Appends the id, pubkey or sig field, when not empty.
fn put_key_field(tag: u32, b: &[u8], binary: bool, buf: &mut Vec<u8>)
    requires
        1 <= tag < 0x2000_0000,
    ensures
        final(buf)@ == old(buf)@ + pb_opt_len(tag as nat, key_field(b@, binary)),
{
    if binary {
        if b.len() > 0 {
            let mut v: Vec<u8> = Vec::new();
            v.extend_from_slice(b);
            assert(v@ =~= b@);
            put_bytes(tag, &v, buf);
        } else {
            assert(buf@ =~= old(buf)@ + Seq::<u8>::empty());
        }
    } else {
        let s = hex_encode(b);
        if b.len() > 0 {
            put_string(tag, &s, buf);
        } else {
            assert(hex_text(b@) =~= Seq::<char>::empty());
            assert(encode_utf8(Seq::<char>::empty()) =~= Seq::<u8>::empty());
            assert(buf@ =~= old(buf)@ + Seq::<u8>::empty());
        }
        proof {
            vstd::utf8::encode_utf8_valid_utf8(hex_text(b@));
            if b@.len() > 0 {
                assert(hex_text(b@).len() > 0);
                assert(encode_utf8(hex_text(b@)).len() > 0) by {
                    let t = hex_text(b@);
                    assert(encode_utf8(t) == vstd::utf8::encode_scalar(t[0] as u32) + encode_utf8(t.drop_first()));
                }
            }
        }
    }
}

/// Appends the created_at and kind fields, each when not zero.
fn put_numbers(created_at: i64, kind: u16, buf: &mut Vec<u8>)
    ensures
        final(buf)@ == old(buf)@ + pb_opt_varint(3, created_at as u64) + pb_opt_varint(4, kind as u64),
{
    assert(created_at != 0 ==> created_at as u64 != 0) by (bit_vector);
    assert(created_at == 0 ==> created_at as u64 == 0) by (bit_vector);
    if created_at != 0 {
        put_int64(3, created_at, buf);
    }
    assert(buf@ =~= old(buf)@ + pb_opt_varint(3, created_at as u64));
    let ghost s3 = buf@;
    if kind != 0 {
        put_int32(4, kind as i32, buf);
        assert(kind as i32 as i64 as u64 == kind as u64);
    }
    assert(buf@ =~= s3 + pb_opt_varint(4, kind as u64));
    assert(buf@ =~= old(buf)@ + pb_opt_varint(3, created_at as u64) + pb_opt_varint(4, kind as u64));
}

/// Appends the tags field: one `Tag` message per tag.
fn put_tags(tags: &Vec<Vec<String>>, buf: &mut Vec<u8>)
    ensures
        final(buf)@ == old(buf)@ + pb_tags(tags.deep_view()),
{
    let ghost all = tags.deep_view();
    let mut i: usize = 0;
    while i < tags.len()
        invariant
            i <= tags@.len(),
            all == tags.deep_view(),
            buf@ == old(buf)@ + pb_tags(all.take(i as int)),
        decreases tags@.len() - i,
    {
        let mut body: Vec<u8> = Vec::new();
        put_tag_message(&tags[i], &mut body);
        put_message(5, &body, buf);
        proof {
            assert(all.take(i + 1).drop_last() =~= all.take(i as int));
            assert(buf@ =~= old(buf)@ + pb_tags(all.take(i + 1)));
        }
        i = i + 1;
    }
    assert(all.take(i as int) =~= all);
}

/// Appends the `ProtoEvent` message of `event`.
pub fn put_event(event: &NostrEvent, binary: bool, buf: &mut Vec<u8>)
    ensures
        final(buf)@ == old(buf)@ + pb_event(*event, binary),
{
    put_key_field(1, event.id.as_slice(), binary, buf);
    put_key_field(2, event.pubkey.as_slice(), binary, buf);
    put_numbers(event.created_at, event.kind, buf);
    put_tags(&event.tags, buf);
    let ghost s5 = buf@;
    let content_len = event.content.as_str().as_bytes().len();
    if content_len > 0 {
        put_string(6, &event.content, buf);
    }
    assert(buf@ =~= s5 + pb_opt_len(6, encode_utf8(event.content@)));
    put_key_field(7, event.sig.as_slice(), binary, buf);
    assert(buf@ =~= old(buf)@ + pb_event(*event, binary));
}

/// The `EventBatch` message of `events`.
pub fn put_batch(events: &[NostrEvent], binary: bool) -> (r: Vec<u8>)
    ensures
        r@ == pb_batch(events@, binary),
{
    let mut buf: Vec<u8> = Vec::new();
    let mut i: usize = 0;
    while i < events.len()
        invariant
            i <= events@.len(),
            buf@ == pb_batch(events@.take(i as int), binary),
        decreases events@.len() - i,
    {
        let mut body: Vec<u8> = Vec::new();
        put_event(&events[i], binary, &mut body);
        put_message(1, &body, &mut buf);
        proof {
            assert(events@.take(i + 1).drop_last() =~= events@.take(i as int));
        }
        i = i + 1;
    }
    assert(events@.take(i as int) =~= events@);
    buf
}

/// Relies on `prost::encoding::decode_key` over `data[pos..end]`: the field's
/// tag and wire type, and the bytes the key took (at least one, none past `end`).
#[verifier::external_body]
fn get_key(data: &[u8], pos: usize, end: usize) -> (r: Result<(u32, prost::encoding::WireType, usize), prost::DecodeError>)
    requires
        pos <= end <= data@.len(),
    ensures
        r is Ok ==> 1 <= r->Ok_0.2 <= end - pos,
{
    let mut b = &data[pos..end];
    let (tag, wire) = prost::encoding::decode_key(&mut b)?;
    Ok((tag, wire, end - pos - b.len()))
}

/// Relies on `prost::encoding::decode_varint` over `data[pos..end]`: the value
/// and the bytes it took (at least one, none past `end`).
#[verifier::external_body]
fn get_varint(data: &[u8], pos: usize, end: usize) -> (r: Result<(u64, usize), prost::DecodeError>)
    requires
        pos <= end <= data@.len(),
    ensures
        r is Ok ==> 1 <= r->Ok_0.1 <= end - pos,
{
    let mut b = &data[pos..end];
    let v = prost::encoding::decode_varint(&mut b)?;
    Ok((v, end - pos - b.len()))
}

/// Relies on `prost::encoding::check_wire_type`: whether a field of a nested
/// message arrived length-delimited.
#[verifier::external_body]
fn check_len_delimited(wire: prost::encoding::WireType) -> (r: Result<(), prost::DecodeError>) {
    prost::encoding::check_wire_type(prost::encoding::WireType::LengthDelimited, wire)
}

/// Relies on `prost::encoding::string::merge` over `data[pos..end]`: the
/// string and the bytes it took (none past `end`).
#[verifier::external_body]
fn get_string(wire: prost::encoding::WireType, data: &[u8], pos: usize, end: usize) -> (r: Result<(String, usize), prost::DecodeError>)
    requires
        pos <= end <= data@.len(),
    ensures
        r is Ok ==> r->Ok_0.1 <= end - pos,
{
    let mut b = &data[pos..end];
    let mut v = String::new();
    prost::encoding::string::merge(wire, &mut v, &mut b, prost::encoding::DecodeContext::default())?;
    Ok((v, end - pos - b.len()))
}

/// Relies on `prost::encoding::bytes::merge` over `data[pos..end]`: the bytes
/// and the input bytes they took (none past `end`).
#[verifier::external_body]
fn get_bytes(wire: prost::encoding::WireType, data: &[u8], pos: usize, end: usize) -> (r: Result<(Vec<u8>, usize), prost::DecodeError>)
    requires
        pos <= end <= data@.len(),
    ensures
        r is Ok ==> r->Ok_0.1 <= end - pos,
{
    let mut b = &data[pos..end];
    let mut v = Vec::new();
    prost::encoding::bytes::merge(wire, &mut v, &mut b, prost::encoding::DecodeContext::default())?;
    Ok((v, end - pos - b.len()))
}

/// Relies on `prost::encoding::int64::merge` over `data[pos..end]`.
#[verifier::external_body]
fn get_int64(wire: prost::encoding::WireType, data: &[u8], pos: usize, end: usize) -> (r: Result<(i64, usize), prost::DecodeError>)
    requires
        pos <= end <= data@.len(),
    ensures
        r is Ok ==> r->Ok_0.1 <= end - pos,
{
    let mut b = &data[pos..end];
    let mut v = 0i64;
    prost::encoding::int64::merge(wire, &mut v, &mut b, prost::encoding::DecodeContext::default())?;
    Ok((v, end - pos - b.len()))
}

/// Relies on `prost::encoding::int32::merge` over `data[pos..end]`.
#[verifier::external_body]
fn get_int32(wire: prost::encoding::WireType, data: &[u8], pos: usize, end: usize) -> (r: Result<(i32, usize), prost::DecodeError>)
    requires
        pos <= end <= data@.len(),
    ensures
        r is Ok ==> r->Ok_0.1 <= end - pos,
{
    let mut b = &data[pos..end];
    let mut v = 0i32;
    prost::encoding::int32::merge(wire, &mut v, &mut b, prost::encoding::DecodeContext::default())?;
    Ok((v, end - pos - b.len()))
}

/// Relies on `prost::encoding::skip_field` over `data[pos..end]`: the bytes an
/// unknown field took (none past `end`).
#[verifier::external_body]
fn skip(wire: prost::encoding::WireType, tag: u32, data: &[u8], pos: usize, end: usize) -> (r: Result<usize, prost::DecodeError>)
    requires
        pos <= end <= data@.len(),
    ensures
        r is Ok ==> r->Ok_0 <= end - pos,
{
    let mut b = &data[pos..end];
    prost::encoding::skip_field(wire, tag, &mut b, prost::encoding::DecodeContext::default())?;
    Ok(end - pos - b.len())
}

/// Reads the length prefix of a nested message at `data[pos..end]`: where its
/// body starts and ends.
fn get_nested(wire: prost::encoding::WireType, data: &[u8], pos: usize, end: usize, field: &'static str) -> (r: Result<(usize, usize), ProtoError>)
    requires
        pos <= end <= data@.len(),
    ensures
        r is Ok ==> pos <= r->Ok_0.0 <= r->Ok_0.1 <= end,
{
    match check_len_delimited(wire) {
        Ok(()) => {},
        Err(e) => return Err(ProtoError::Decode(e)),
    }
    let (len, n) = match get_varint(data, pos, end) {
        Ok(x) => x,
        Err(e) => return Err(ProtoError::Decode(e)),
    };
    let body = pos + n;
    if len > (end - body) as u64 {
        return Err(ProtoError::InvalidLength(field));
    }
    Ok((body, body + len as usize))
}

/// Decodes a `Tag` message spanning `data[start..end]`.
fn get_tag(data: &[u8], start: usize, end: usize) -> (r: Result<Vec<String>, ProtoError>)
    requires
        start <= end <= data@.len(),
{
    let mut values: Vec<String> = Vec::new();
    let mut p = start;
    while p < end
        invariant
            start <= p <= end <= data@.len(),
        decreases end - p,
    {
        let (tag, wire, n) = match get_key(data, p, end) {
            Ok(x) => x,
            Err(e) => return Err(ProtoError::Decode(e)),
        };
        p = p + n;
        if tag == 1 {
            let (v, m) = match get_string(wire, data, p, end) {
                Ok(x) => x,
                Err(e) => return Err(ProtoError::Decode(e)),
            };
            values.push(v);
            p = p + m;
        } else {
            match skip(wire, tag, data, p, end) {
                Ok(m) => p = p + m,
                Err(e) => return Err(ProtoError::Decode(e)),
            }
        }
    }
    Ok(values)
}

/// The fields of a `ProtoEvent` as they arrived.
struct RawEvent {
    id: Vec<u8>,
    pubkey: Vec<u8>,
    sig: Vec<u8>,
    id_text: String,
    pubkey_text: String,
    sig_text: String,
    created_at: i64,
    kind: i32,
    tags: Vec<Vec<String>>,
    content: String,
}

/// Reads the id, pubkey or sig field into `raw`.
fn get_key_field(raw: &mut RawEvent, tag: u32, wire: prost::encoding::WireType, binary: bool, data: &[u8], pos: usize, end: usize) -> (r: Result<usize, ProtoError>)
    requires
        pos <= end <= data@.len(),
    ensures
        r is Ok ==> r->Ok_0 <= end - pos,
{
    if binary {
        let (v, m) = match get_bytes(wire, data, pos, end) {
            Ok(x) => x,
            Err(e) => return Err(ProtoError::Decode(e)),
        };
        if tag == 1 {
            raw.id = v;
        } else if tag == 2 {
            raw.pubkey = v;
        } else {
            raw.sig = v;
        }
        Ok(m)
    } else {
        let (v, m) = match get_string(wire, data, pos, end) {
            Ok(x) => x,
            Err(e) => return Err(ProtoError::Decode(e)),
        };
        if tag == 1 {
            raw.id_text = v;
        } else if tag == 2 {
            raw.pubkey_text = v;
        } else {
            raw.sig_text = v;
        }
        Ok(m)
    }
}

/// Reads the fields of a `ProtoEvent` spanning `data[start..end]`; unknown fields are skipped.
fn get_raw(data: &[u8], start: usize, end: usize, binary: bool) -> (r: Result<RawEvent, ProtoError>)
    requires
        start <= end <= data@.len(),
{
    let mut raw = RawEvent {
        id: Vec::new(),
        pubkey: Vec::new(),
        sig: Vec::new(),
        id_text: String::new(),
        pubkey_text: String::new(),
        sig_text: String::new(),
        created_at: 0,
        kind: 0,
        tags: Vec::new(),
        content: String::new(),
    };
    let mut p = start;
    while p < end
        invariant
            start <= p <= end <= data@.len(),
        decreases end - p,
    {
        let (tag, wire, n) = match get_key(data, p, end) {
            Ok(x) => x,
            Err(e) => return Err(ProtoError::Decode(e)),
        };
        p = p + n;
        if tag == 1 || tag == 2 || tag == 7 {
            match get_key_field(&mut raw, tag, wire, binary, data, p, end) {
                Ok(m) => p = p + m,
                Err(e) => return Err(e),
            }
        } else if tag == 3 {
            match get_int64(wire, data, p, end) {
                Ok((v, m)) => {
                    raw.created_at = v;
                    p = p + m;
                },
                Err(e) => return Err(ProtoError::Decode(e)),
            }
        } else if tag == 4 {
            match get_int32(wire, data, p, end) {
                Ok((v, m)) => {
                    raw.kind = v;
                    p = p + m;
                },
                Err(e) => return Err(ProtoError::Decode(e)),
            }
        } else if tag == 5 {
            let (body, body_end) = match get_nested(wire, data, p, end, "tags") {
                Ok(x) => x,
                Err(e) => return Err(e),
            };
            match get_tag(data, body, body_end) {
                Ok(t) => raw.tags.push(t),
                Err(e) => return Err(e),
            }
            p = body_end;
        } else if tag == 6 {
            match get_string(wire, data, p, end) {
                Ok((v, m)) => {
                    raw.content = v;
                    p = p + m;
                },
                Err(e) => return Err(ProtoError::Decode(e)),
            }
        } else {
            match skip(wire, tag, data, p, end) {
                Ok(m) => p = p + m,
                Err(e) => return Err(ProtoError::Decode(e)),
            }
        }
    }
    Ok(raw)
}

/// Copies a vector of exactly `N` bytes into an array, or names the field
/// whose size is wrong.
fn fixed_field<const N: usize>(v: &Vec<u8>, field: &'static str) -> (r: Result<[u8; N], ProtoError>)
    ensures
        r is Ok <==> v@.len() == N,
        r is Ok ==> r->Ok_0@ == v@,
{
    if v.len() != N {
        return Err(ProtoError::InvalidLength(field));
    }
    let mut a = [0u8; N];
    let mut i: usize = 0;
    while i < N
        invariant
            v@.len() == N,
            i <= N,
            a@.len() == N,
            forall|k: int| 0 <= k < i ==> a@[k] == v@[k],
        decreases N - i,
    {
        a[i] = v[i];
        i = i + 1;
    }
    assert(a@ =~= v@);
    Ok(a)
}

/// Decodes hex text into bytes for the named field.
fn hex_field(s: &String) -> (r: Result<Vec<u8>, ProtoError>) {
    match hex_decode(s.as_str()) {
        Ok(b) => Ok(b),
        Err(e) => Err(ProtoError::Hex(e)),
    }
}

/// The event the fields of a `ProtoEvent` describe: the id, pubkey and sig of
/// their fixed sizes (decoded from hex in the string variant), and a kind within 16 bits.
fn raw_to_event(raw: RawEvent, binary: bool) -> (r: Result<NostrEvent, ProtoError>)
    ensures
        r is Ok ==> r->Ok_0.created_at == raw.created_at && r->Ok_0.kind == raw.kind
            && r->Ok_0.content == raw.content && r->Ok_0.tags == raw.tags,
        r is Ok ==> 0 <= raw.kind <= u16::MAX,
        binary && r is Ok ==> r->Ok_0.id@ == raw.id@ && r->Ok_0.pubkey@ == raw.pubkey@ && r->Ok_0.sig@ == raw.sig@,
{
    let (id_b, pubkey_b, sig_b) = if binary {
        (raw.id, raw.pubkey, raw.sig)
    } else {
        let a = match hex_field(&raw.id_text) {
            Ok(b) => b,
            Err(e) => return Err(e),
        };
        let b = match hex_field(&raw.pubkey_text) {
            Ok(b) => b,
            Err(e) => return Err(e),
        };
        let c = match hex_field(&raw.sig_text) {
            Ok(b) => b,
            Err(e) => return Err(e),
        };
        (a, b, c)
    };
    let id: [u8; 32] = match fixed_field(&id_b, "id") {
        Ok(a) => a,
        Err(e) => return Err(e),
    };
    let pubkey: [u8; 32] = match fixed_field(&pubkey_b, "pubkey") {
        Ok(a) => a,
        Err(e) => return Err(e),
    };
    let sig: [u8; 64] = match fixed_field(&sig_b, "sig") {
        Ok(a) => a,
        Err(e) => return Err(e),
    };
    if raw.kind < 0 || raw.kind > u16::MAX as i32 {
        return Err(ProtoError::KindOutOfRange(raw.kind));
    }
    Ok(NostrEvent {
        id,
        pubkey,
        created_at: raw.created_at,
        kind: raw.kind as u16,
        tags: raw.tags,
        content: raw.content,
        sig,
    })
}

/// Decodes a `ProtoEvent` spanning `data[start..end]`.
pub fn get_event(data: &[u8], start: usize, end: usize, binary: bool) -> (r: Result<NostrEvent, ProtoError>)
    requires
        start <= end <= data@.len(),
{
    match get_raw(data, start, end, binary) {
        Ok(raw) => raw_to_event(raw, binary),
        Err(e) => Err(e),
    }
}

/// Decodes an `EventBatch`: every field 1 is an event; unknown fields are skipped.
pub fn get_batch(data: &[u8], binary: bool) -> (r: Result<Vec<NostrEvent>, ProtoError>) {
    let end = data.len();
    let mut events: Vec<NostrEvent> = Vec::new();
    let mut p: usize = 0;
    while p < end
        invariant
            p <= end == data@.len(),
        decreases end - p,
    {
        let (tag, wire, n) = match get_key(data, p, end) {
            Ok(x) => x,
            Err(e) => return Err(ProtoError::Decode(e)),
        };
        p = p + n;
        if tag == 1 {
            let (body, body_end) = match get_nested(wire, data, p, end, "events") {
                Ok(x) => x,
                Err(e) => return Err(e),
            };
            match get_event(data, body, body_end, binary) {
                Ok(e) => events.push(e),
                Err(e) => return Err(e),
            }
            p = body_end;
        } else {
            match skip(wire, tag, data, p, end) {
                Ok(m) => p = p + m,
                Err(e) => return Err(ProtoError::Decode(e)),
            }
        }
    }
    Ok(events)
}

} // verus!
