//! Cap'n Proto serialization.
//!
//! The message root is a list of records; a record is a list of three data
//! blobs: the 138-byte fixed block (id, pubkey, sig, created_at, kind), the tag
//! blob, and the content's UTF-8 bytes. A single event is a message of one record.
//!
//! Tag blob: `[tag count: u16]`, then per tag `[value count: u8]`, then per value
//! `[flags and length: u16, bit 15 = hex]` and the value's bytes. A value that
//! is hex text (either case, even length) is stored as the bytes it spells.

use vstd::prelude::*;
use vstd::bytes::{lemma_auto_spec_u16_to_from_le_bytes, spec_u16_from_le_bytes, spec_u16_to_le_bytes, u16_from_le_bytes, u16_to_le_bytes};
use vstd::utf8::{decode_utf8, encode_utf8, encode_utf8_decode_utf8, encode_utf8_valid_utf8, valid_utf8};
use crate::dannypack::{fixed_spec, pack_fixed_data, unpack_fixed_data, FIXED_SIZE};
use crate::event::NostrEvent;
use crate::hexstr::{hex_bytes, hex_decode, hex_encode, hex_text, is_hex_char, is_hex_text};
use crate::wire::string_from_utf8;

verus! {

#[verifier::external_type_specification]
#[verifier::external_body]
pub struct ExCapnpError(::capnp::Error);

/// Errors of the Cap'n Proto adapter.
#[derive(Debug)]
pub enum CapnpError {
    /// capnp rejected the message.
    Capnp(::capnp::Error),
    /// The named part has the wrong size or shape.
    InvalidLength(&'static str),
    /// The tag blob is malformed, as described.
    InvalidTagData(&'static str),
    /// A text value is not valid UTF-8.
    InvalidUtf8,
}

/// Bit 15 of a value header: the value is stored as the bytes its hex spells.
pub const HEX_BIT: u16 = 0x8000;

/// The longest stored value: its length has fifteen bits.
pub const MAX_VALUE_LEN: usize = 0x7FFF;

/// Bytes stored for one tag value.
pub open spec fn stored_value(v: Seq<char>) -> Seq<u8> {
    if is_hex_text(v) { hex_bytes(v) } else { encode_utf8(v) }
}

/// One stored value: its flags-and-length header and its bytes.
pub open spec fn value_spec(v: Seq<char>) -> Seq<u8> {
    let data = stored_value(v);
    let flags: nat = if is_hex_text(v) { 0x8000 } else { 0 };
    spec_u16_to_le_bytes((flags + data.len()) as u16) + data
}

pub open spec fn values_spec(vals: Seq<Seq<char>>) -> Seq<u8>
    decreases vals.len(),
{
    if vals.len() == 0 {
        Seq::empty()
    } else {
        values_spec(vals.drop_last()) + value_spec(vals.last())
    }
}

pub open spec fn tag_list_spec(tags: Seq<Seq<Seq<char>>>) -> Seq<u8>
    decreases tags.len(),
{
    if tags.len() == 0 {
        Seq::empty()
    } else {
        tag_list_spec(tags.drop_last()) + (seq![tags.last().len() as u8] + values_spec(tags.last()))
    }
}

/// The tag blob of `tags`.
pub open spec fn tags_spec(tags: Seq<Seq<Seq<char>>>) -> Seq<u8> {
    spec_u16_to_le_bytes(tags.len() as u16) + tag_list_spec(tags)
}

/// Limits of the tag blob: 65535 tags, 255 values per tag, values of at most 32767 bytes.
pub open spec fn tags_fit(tags: Seq<Seq<Seq<char>>>) -> bool {
    &&& tags.len() <= u16::MAX
    &&& forall|i: int| 0 <= i < tags.len() ==> (#[trigger] tags[i]).len() <= 255
    &&& forall|i: int, j: int|
        0 <= i < tags.len() && 0 <= j < tags[i].len() ==> encode_utf8(#[trigger] tags[i][j]).len()
            <= MAX_VALUE_LEN
}

/// Whether every character of `s` is an ASCII hex digit, in either case.
pub fn is_hex_string(s: &str) -> (r: bool)
    ensures
        r == forall|i: int| 0 <= i < s@.len() ==> is_hex_char(#[trigger] s@[i]),
{
    let n = s.unicode_len();
    let mut i: usize = 0;
    while i < n
        invariant
            n == s@.len(),
            i <= n,
            forall|k: int| 0 <= k < i ==> is_hex_char(#[trigger] s@[k]),
        decreases n - i,
    {
        let c = s.get_char(i);
        if !(('0' <= c && c <= '9') || ('a' <= c && c <= 'f') || ('A' <= c && c <= 'F')) {
            return false;
        }
        i = i + 1;
    }
    true
}

/// Whether a value is stored hex-decoded, and the bytes stored for it.
pub fn encode_tag_value(value: &str) -> (r: (bool, Vec<u8>))
    ensures
        r.0 == is_hex_text(value@),
        r.1@ == stored_value(value@),
{
    if is_hex_string(value) && value.unicode_len() % 2 == 0 {
        match hex_decode(value) {
            Ok(bytes) => return (true, bytes),
            Err(_) => {},
        }
    }
    let mut raw: Vec<u8> = Vec::new();
    raw.extend_from_slice(value.as_bytes());
    assert(raw@ =~= encode_utf8(value@));
    (false, raw)
}

/// The text a stored value stands for: the hex of hex-stored bytes, else the UTF-8 text.
pub fn decode_tag_value(is_hex: bool, bytes: &[u8]) -> (r: Result<String, CapnpError>)
    ensures
        is_hex ==> r is Ok && r->Ok_0@ == hex_text(bytes@),
        !is_hex ==> (r is Ok <==> valid_utf8(bytes@)),
        !is_hex && r is Ok ==> r->Ok_0@ == decode_utf8(bytes@),
        r is Err ==> r->Err_0 is InvalidUtf8,
{
    if is_hex {
        Ok(hex_encode(bytes))
    } else {
        let mut v: Vec<u8> = Vec::new();
        v.extend_from_slice(bytes);
        assert(v@ =~= bytes@);
        match string_from_utf8(v) {
            Some(s) => Ok(s),
            None => Err(CapnpError::InvalidUtf8),
        }
    }
}

/// The tag blob of `tags`.
pub fn pack_tags(tags: &Vec<Vec<String>>) -> (r: Vec<u8>)
    requires
        tags_fit(tags.deep_view()),
    ensures
        r@ == tags_spec(tags.deep_view()),
{
    let ghost all = tags.deep_view();
    let mut buf: Vec<u8> = Vec::new();
    let count = u16_to_le_bytes(tags.len() as u16);
    buf.extend_from_slice(count.as_slice());
    let ghost base = buf@;
    let mut i: usize = 0;
    while i < tags.len()
        invariant
            i <= tags@.len(),
            all == tags.deep_view(),
            tags_fit(all),
            base == spec_u16_to_le_bytes(all.len() as u16),
            buf@ == base + tag_list_spec(all.take(i as int)),
        decreases tags@.len() - i,
    {
        let tag = &tags[i];
        let ghost tv = tag.deep_view();
        let ghost before = buf@;
        buf.push(tag.len() as u8);
        let ghost after_count = buf@;
        let mut j: usize = 0;
        while j < tag.len()
            invariant
                j <= tag@.len(),
                i < all.len(),
                tv == tag.deep_view(),
                tv == all[i as int],
                tags_fit(all),
                buf@ == after_count + values_spec(tv.take(j as int)),
            decreases tag@.len() - j,
        {
            let (is_hex, data) = encode_tag_value(tag[j].as_str());
            proof {
                assert(tv[j as int] == tag@[j as int]@);
                assert(encode_utf8(all[i as int][j as int]).len() <= MAX_VALUE_LEN);
                if is_hex {
                    assert(data@.len() * 2 == encode_utf8(tv[j as int]).len()) by {
                        lemma_hex_text_len(tv[j as int]);
                    }
                }
            }
            let flags: u16 = if is_hex { HEX_BIT } else { 0 };
            let header = u16_to_le_bytes(flags + data.len() as u16);
            buf.extend_from_slice(header.as_slice());
            buf.extend_from_slice(data.as_slice());
            proof {
                assert(tv.take(j + 1).drop_last() =~= tv.take(j as int));
                assert(buf@ =~= after_count + values_spec(tv.take(j + 1)));
            }
            j = j + 1;
        }
        proof {
            assert(tv.take(j as int) =~= tv);
            assert(all.take(i + 1).drop_last() =~= all.take(i as int));
            assert(buf@ =~= base + tag_list_spec(all.take(i + 1)));
        }
        i = i + 1;
    }
    assert(all.take(i as int) =~= all);
    buf
}

/// Hex text is ASCII: its UTF-8 encoding has one byte per character.
proof fn lemma_hex_text_len(v: Seq<char>)
    requires
        is_hex_text(v),
    ensures
        hex_bytes(v).len() * 2 == encode_utf8(v).len(),
{
    assert(vstd::utf8::is_ascii_chars(v)) by {
        assert forall|i: int| 0 <= i < v.len() implies '\0' <= #[trigger] v[i] <= '\u{7f}' by {
            assert(is_hex_char(v[i]));
        }
    }
    vstd::utf8::is_ascii_chars_encode_utf8(v);
}

/// Decodes one stored value from the front of `d`.
pub open spec fn parse_value(d: Seq<u8>) -> Result<(Seq<char>, nat), CapnpError> {
    if d.len() < 2 {
        Err(CapnpError::InvalidTagData("truncated value header"))
    } else {
        let f = spec_u16_from_le_bytes(d.subrange(0, 2));
        let len = (f % 0x8000) as nat;
        if 2 + len > d.len() {
            Err(CapnpError::InvalidTagData("truncated value data"))
        } else {
            let bytes = d.subrange(2, 2 + len as int);
            if f >= 0x8000 {
                Ok((hex_text(bytes), 2 + len))
            } else if valid_utf8(bytes) {
                Ok((decode_utf8(bytes), 2 + len))
            } else {
                Err(CapnpError::InvalidUtf8)
            }
        }
    }
}

pub open spec fn parse_values(d: Seq<u8>, k: nat) -> Result<(Seq<Seq<char>>, nat), CapnpError>
    decreases k,
{
    if k == 0 {
        Ok((Seq::empty(), 0))
    } else {
        match parse_value(d) {
            Err(e) => Err(e),
            Ok((v, n)) => match parse_values(d.subrange(n as int, d.len() as int), (k - 1) as nat) {
                Err(e) => Err(e),
                Ok((vs, m)) => Ok((seq![v] + vs, n + m)),
            },
        }
    }
}

pub open spec fn parse_tag(d: Seq<u8>) -> Result<(Seq<Seq<char>>, nat), CapnpError> {
    if d.len() == 0 {
        Err(CapnpError::InvalidTagData("truncated tag data"))
    } else {
        match parse_values(d.drop_first(), d[0] as nat) {
            Ok((vs, m)) => Ok((vs, m + 1)),
            Err(e) => Err(e),
        }
    }
}

pub open spec fn parse_tag_list(d: Seq<u8>, k: nat) -> Result<Seq<Seq<Seq<char>>>, CapnpError>
    decreases k,
{
    if k == 0 {
        Ok(Seq::empty())
    } else {
        match parse_tag(d) {
            Err(e) => Err(e),
            Ok((t, n)) => match parse_tag_list(d.subrange(n as int, d.len() as int), (k - 1) as nat) {
                Err(e) => Err(e),
                Ok(ts) => Ok(seq![t] + ts),
            },
        }
    }
}

/// Decodes a tag blob; one shorter than its count holds no tags.
pub open spec fn parse_tags(d: Seq<u8>) -> Result<Seq<Seq<Seq<char>>>, CapnpError> {
    if d.len() < 2 {
        Ok(Seq::empty())
    } else {
        parse_tag_list(d.subrange(2, d.len() as int), spec_u16_from_le_bytes(d.subrange(0, 2)) as nat)
    }
}

/// Whether two results agree: the same tags, or errors of the same kind and
/// description (capnp's own errors never arise here).
pub open spec fn same_outcome<A>(r: Result<A, CapnpError>, s: Result<A, CapnpError>) -> bool {
    match (r, s) {
        (Ok(a), Ok(b)) => a == b,
        (Err(CapnpError::InvalidTagData(x)), Err(CapnpError::InvalidTagData(y))) => x == y,
        (Err(CapnpError::InvalidUtf8), Err(CapnpError::InvalidUtf8)) => true,
        _ => false,
    }
}

/// Decodes one stored value at `data[pos..]`.
fn unpack_value(data: &[u8], pos: usize) -> (r: Result<(String, usize), CapnpError>)
    requires
        pos <= data@.len(),
    ensures
        same_outcome(
            match r { Ok((s, n)) => Ok((s@, n as nat)), Err(e) => Err(e) },
            parse_value(data@.subrange(pos as int, data@.len() as int)),
        ),
        r is Ok ==> r->Ok_0.1 <= data@.len() - pos,
{
    let ghost d = data@.subrange(pos as int, data@.len() as int);
    if data.len() - pos < 2 {
        return Err(CapnpError::InvalidTagData("truncated value header"));
    }
    let f = u16_from_le_bytes(&data[pos..pos + 2]);
    assert(data@.subrange(pos as int, pos + 2) =~= d.subrange(0, 2));
    let is_hex = f >= HEX_BIT;
    let len = (f % HEX_BIT) as usize;
    if len > data.len() - pos - 2 {
        return Err(CapnpError::InvalidTagData("truncated value data"));
    }
    let bytes = &data[pos + 2..pos + 2 + len];
    assert(bytes@ =~= d.subrange(2, 2 + len));
    match decode_tag_value(is_hex, bytes) {
        Ok(s) => Ok((s, 2 + len)),
        Err(e) => Err(e),
    }
}

/// Decodes the tag blob `data`.
pub fn unpack_tags(data: &[u8]) -> (r: Result<Vec<Vec<String>>, CapnpError>)
    ensures
        same_outcome(
            match r { Ok(t) => Ok(t.deep_view()), Err(e) => Err(e) },
            parse_tags(data@),
        ),
{
    let len = data.len();
    if len < 2 {
        let empty: Vec<Vec<String>> = Vec::new();
        assert(empty.deep_view() =~= Seq::<Seq<Seq<char>>>::empty());
        return Ok(empty);
    }
    let count = u16_from_le_bytes(&data[0..2]);
    let ghost whole = data@.subrange(2, len as int);
    let mut tags: Vec<Vec<String>> = Vec::new();
    let mut p: usize = 2;
    let mut i: u16 = 0;
    while i < count
        invariant
            2 <= p <= len == data@.len(),
            i <= count,
            parse_tags(data@) == parse_tag_list(whole, count as nat),
            whole == data@.subrange(2, len as int),
            parse_tag_list(whole, count as nat) == match parse_tag_list(
                data@.subrange(p as int, len as int),
                (count - i) as nat,
            ) {
                Ok(ts) => Ok(tags.deep_view() + ts),
                Err(e) => Err(e),
            },
        decreases count - i,
    {
        let ghost d = data@.subrange(p as int, len as int);
        let ghost acc = tags.deep_view();
        if p >= len {
            return Err(CapnpError::InvalidTagData("truncated tag data"));
        }
        let value_count = data[p];
        let mut values: Vec<String> = Vec::new();
        let mut q = p + 1;
        let mut j: u8 = 0;
        let ghost vd = d.drop_first();
        assert(data@.subrange(p + 1, len as int) =~= vd);
        assert(d[0] == value_count);
        while j < value_count
            invariant
                p + 1 <= q <= len == data@.len(),
                j <= value_count,
                vd == data@.subrange(p + 1, len as int),
                d == data@.subrange(p as int, len as int),
                d.len() > 0 && d[0] == value_count,
                vd == d.drop_first(),
                i < count,
                parse_tags(data@) == parse_tag_list(whole, count as nat),
                parse_tag_list(whole, count as nat) == match parse_tag_list(d, (count - i) as nat) {
                    Ok(ts) => Ok(acc + ts),
                    Err(e) => Err(e),
                },
                parse_values(vd, value_count as nat) == match parse_values(
                    data@.subrange(q as int, len as int),
                    (value_count - j) as nat,
                ) {
                    Ok((vs, m)) => Ok((values.deep_view() + vs, ((q - p - 1) + m) as nat)),
                    Err(e) => Err(e),
                },
            decreases value_count - j,
        {
            let ghost ed = data@.subrange(q as int, len as int);
            let ghost vacc = values.deep_view();
            match unpack_value(data, q) {
                Ok((s, n)) => {
                    proof {
                        assert(ed.subrange(n as int, ed.len() as int) =~= data@.subrange(q + n, len as int));
                    }
                    let ghost sv = s@;
                    values.push(s);
                    proof {
                        assert(values.deep_view() =~= vacc.push(sv));
                        match parse_values(data@.subrange(q + n, len as int), (value_count - j - 1) as nat) {
                            Ok((vs, m)) => {
                                assert(vacc + (seq![sv] + vs) =~= vacc.push(sv) + vs);
                            },
                            Err(_) => {},
                        }
                    }
                    q = q + n;
                    j = j + 1;
                },
                Err(e) => {
                    proof {
                        let se = parse_value(ed)->Err_0;
                        assert(parse_values(ed, (value_count - j) as nat) == Err::<(Seq<Seq<char>>, nat), CapnpError>(se));
                        assert(parse_values(vd, value_count as nat) == Err::<(Seq<Seq<char>>, nat), CapnpError>(se));
                        assert(parse_tag(d) == Err::<(Seq<Seq<char>>, nat), CapnpError>(se));
                        assert(parse_tag_list(d, (count - i) as nat) == Err::<Seq<Seq<Seq<char>>>, CapnpError>(se));
                    }
                    return Err(e);
                },
            }
        }
        assert(values.deep_view() + Seq::<Seq<char>>::empty() =~= values.deep_view());
        let ghost tv = values.deep_view();
        tags.push(values);
        proof {
            assert(tags.deep_view() =~= acc.push(tv));
            assert(d.subrange((q - p) as int, d.len() as int) =~= data@.subrange(q as int, len as int));
            match parse_tag_list(data@.subrange(q as int, len as int), (count - i - 1) as nat) {
                Ok(ts) => {
                    assert(acc + (seq![tv] + ts) =~= acc.push(tv) + ts);
                },
                Err(_) => {},
            }
        }
        p = q;
        i = i + 1;
    }
    assert(tags.deep_view() + Seq::<Seq<Seq<char>>>::empty() =~= tags.deep_view());
    Ok(tags)
}

/// The message capnp's `serialize::write_message` writes for a root list of
/// records, each a list of data blobs.
pub uninterp spec fn capnp_message(records: Seq<Seq<Seq<u8>>>) -> Seq<u8>;

/// The message capnp's `serialize_packed::write_message` writes for the same root.
pub uninterp spec fn capnp_packed_message(records: Seq<Seq<Seq<u8>>>) -> Seq<u8>;

/// The largest element count of a capnp list, and the largest blob.
pub const MAX_LIST_LEN: usize = 0x1FFF_FFFF;

/// Records that fit capnp's list limits.
pub open spec fn records_fit(records: Seq<Seq<Seq<u8>>>) -> bool {
    &&& records.len() <= MAX_LIST_LEN
    &&& forall|i: int| 0 <= i < records.len() ==> (#[trigger] records[i]).len() <= MAX_LIST_LEN
    &&& forall|i: int, j: int|
        0 <= i < records.len() && 0 <= j < records[i].len() ==> (#[trigger] records[i][j]).len() <= MAX_LIST_LEN
}

/// Relies on capnp's list builders and `serialize::write_message` into a
/// `Vec`: writing into memory does not fail, and the bytes depend on the lists alone.
#[verifier::external_body]
fn write_records(records: &Vec<Vec<Vec<u8>>>) -> (r: Vec<u8>)
    requires
        records_fit(records.deep_view()),
    ensures
        r@ == capnp_message(records.deep_view()),
{
    let mut message = ::capnp::message::Builder::new_default();
    let mut list = message.initn_root::<::capnp::list_list::Builder<::capnp::data_list::Owned>>(records.len() as u32);
    for (i, rec) in records.iter().enumerate() {
        let mut parts = list.reborrow().init(i as u32, rec.len() as u32);
        for (j, part) in rec.iter().enumerate() {
            parts.set(j as u32, part);
        }
    }
    let mut buf = Vec::new();
    ::capnp::serialize::write_message(&mut buf, &message).unwrap();
    buf
}

/// Relies on capnp's list builders and `serialize_packed::write_message` into
/// a `Vec`: writing into memory does not fail, and the bytes depend on the lists alone.
#[verifier::external_body]
fn write_records_packed(records: &Vec<Vec<Vec<u8>>>) -> (r: Vec<u8>)
    requires
        records_fit(records.deep_view()),
    ensures
        r@ == capnp_packed_message(records.deep_view()),
{
    let mut message = ::capnp::message::Builder::new_default();
    let mut list = message.initn_root::<::capnp::list_list::Builder<::capnp::data_list::Owned>>(records.len() as u32);
    for (i, rec) in records.iter().enumerate() {
        let mut parts = list.reborrow().init(i as u32, rec.len() as u32);
        for (j, part) in rec.iter().enumerate() {
            parts.set(j as u32, part);
        }
    }
    let mut buf = Vec::new();
    ::capnp::serialize_packed::write_message(&mut buf, &message).unwrap();
    buf
}

/// Relies on `capnp::serialize::read_message` with default limits, read as a
/// root list of lists of data blobs.
#[verifier::external_body]
fn read_records(data: &[u8]) -> (r: Result<Vec<Vec<Vec<u8>>>, ::capnp::Error>) {
    let reader = ::capnp::serialize::read_message(data, ::capnp::message::ReaderOptions::new())?;
    let list = reader.get_root::<::capnp::list_list::Reader<::capnp::data_list::Owned>>()?;
    let mut out = Vec::new();
    for rec in list.iter() {
        out.push(rec?.iter().map(|p| p.map(|b| b.to_vec())).collect::<Result<Vec<_>, _>>()?);
    }
    Ok(out)
}

/// Relies on `capnp::serialize_packed::read_message` with default limits, read
/// as a root list of lists of data blobs.
#[verifier::external_body]
fn read_records_packed(data: &[u8]) -> (r: Result<Vec<Vec<Vec<u8>>>, ::capnp::Error>) {
    let reader = ::capnp::serialize_packed::read_message(data, ::capnp::message::ReaderOptions::new())?;
    let list = reader.get_root::<::capnp::list_list::Reader<::capnp::data_list::Owned>>()?;
    let mut out = Vec::new();
    for rec in list.iter() {
        out.push(rec?.iter().map(|p| p.map(|b| b.to_vec())).collect::<Result<Vec<_>, _>>()?);
    }
    Ok(out)
}

/// The three blobs of an event's record.
pub open spec fn record_spec(e: NostrEvent) -> Seq<Seq<u8>> {
    seq![fixed_spec(e@), tags_spec(e.tags.deep_view()), encode_utf8(e.content@)]
}

/// Limits of one record: the tag blob's, and blobs within capnp's.
pub open spec fn event_fits(e: NostrEvent) -> bool {
    tags_fit(e.tags.deep_view()) && tags_spec(e.tags.deep_view()).len() <= MAX_LIST_LEN
        && encode_utf8(e.content@).len() <= MAX_LIST_LEN
}

/// The three blobs of `event`'s record.
fn event_record(event: &NostrEvent) -> (r: Vec<Vec<u8>>)
    requires
        tags_fit(event.tags.deep_view()),
    ensures
        r.deep_view() == record_spec(*event),
{
    let mut fixed: Vec<u8> = Vec::new();
    pack_fixed_data(event, &mut fixed);
    assert(fixed@ =~= fixed_spec(event@));
    let tags = pack_tags(&event.tags);
    let mut content: Vec<u8> = Vec::new();
    content.extend_from_slice(event.content.as_str().as_bytes());
    let mut r: Vec<Vec<u8>> = Vec::new();
    r.push(fixed);
    r.push(tags);
    r.push(content);
    assert(r@[2]@ =~= encode_utf8(event.content@));
    assert(r.deep_view()[0] =~= fixed_spec(event@));
    assert(r.deep_view()[1] =~= tags_spec(event.tags.deep_view()));
    assert(r.deep_view()[2] =~= encode_utf8(event.content@));
    assert(r.deep_view() =~= record_spec(*event));
    r
}

/// The event a record describes: three blobs, a fixed block of at least 138
/// bytes, a well-formed tag blob, and UTF-8 content.
pub fn record_to_event(record: &Vec<Vec<u8>>) -> (r: Result<NostrEvent, CapnpError>)
    ensures
        r is Ok <==> (record@.len() == 3 && record@[0]@.len() >= FIXED_SIZE && parse_tags(record@[1]@) is Ok
            && valid_utf8(record@[2]@)),
        r is Ok ==> ({
            let e = r->Ok_0;
            &&& e@.id == record@[0]@.subrange(0, 32)
            &&& e@.pubkey == record@[0]@.subrange(32, 64)
            &&& e@.sig == record@[0]@.subrange(64, 128)
            &&& e.created_at == vstd::bytes::spec_u64_from_le_bytes(record@[0]@.subrange(128, 136)) as i64
            &&& e.kind == spec_u16_from_le_bytes(record@[0]@.subrange(136, 138))
            &&& e.tags.deep_view() == parse_tags(record@[1]@)->Ok_0
            &&& e.content@ == decode_utf8(record@[2]@)
        }),
{
    if record.len() != 3 {
        return Err(CapnpError::InvalidLength("record"));
    }
    if record[0].len() < FIXED_SIZE {
        return Err(CapnpError::InvalidLength("fixed data too short"));
    }
    let (id, pubkey, sig, created_at, kind) = unpack_fixed_data(record[0].as_slice());
    let tags = match unpack_tags(record[1].as_slice()) {
        Ok(t) => t,
        Err(e) => return Err(e),
    };
    let content = match decode_tag_value(false, record[2].as_slice()) {
        Ok(s) => s,
        Err(e) => return Err(e),
    };
    Ok(NostrEvent { id, pubkey, created_at, kind, tags, content, sig })
}

/// The records of `events`.
fn event_records(events: &[NostrEvent]) -> (r: Vec<Vec<Vec<u8>>>)
    requires
        forall|i: int| 0 <= i < events@.len() ==> tags_fit((#[trigger] events@[i]).tags.deep_view()),
    ensures
        r.deep_view() == events@.map_values(|e: NostrEvent| record_spec(e)),
{
    let mut out: Vec<Vec<Vec<u8>>> = Vec::new();
    let mut i: usize = 0;
    while i < events.len()
        invariant
            i <= events@.len(),
            forall|k: int| 0 <= k < events@.len() ==> tags_fit((#[trigger] events@[k]).tags.deep_view()),
            out@.len() == i,
            forall|k: int| 0 <= k < i ==> (#[trigger] out@[k]).deep_view() == record_spec(events@[k]),
        decreases events@.len() - i,
    {
        out.push(event_record(&events[i]));
        i = i + 1;
    }
    assert(out.deep_view() =~= events@.map_values(|e: NostrEvent| record_spec(e)));
    out
}

proof fn lemma_records_fit(events: Seq<NostrEvent>)
    requires
        events.len() <= MAX_LIST_LEN,
        forall|i: int| 0 <= i < events.len() ==> event_fits(#[trigger] events[i]),
    ensures
        records_fit(events.map_values(|e: NostrEvent| record_spec(e))),
{
    let recs = events.map_values(|e: NostrEvent| record_spec(e));
    vstd::bytes::lemma_auto_spec_u64_to_from_le_bytes();
    vstd::bytes::lemma_auto_spec_u16_to_from_le_bytes();
    assert forall|i: int, j: int| 0 <= i < recs.len() && 0 <= j < recs[i].len() implies (#[trigger] recs[i][j]).len()
        <= MAX_LIST_LEN by {
        assert(recs[i] == record_spec(events[i]));
        assert(event_fits(events[i]));
        let e = events[i];
        assert(spec_u16_to_le_bytes(e.kind).len() == 2);
        assert(vstd::bytes::spec_u64_to_le_bytes(e.created_at as u64).len() == 8);
        assert(fixed_spec(e@).len() == FIXED_SIZE);
    }
}

/// Encodes `event` as a message of one record.
pub fn serialize_event(event: &NostrEvent) -> (r: Vec<u8>)
    requires
        event_fits(*event),
    ensures
        r@ == capnp_message(seq![record_spec(*event)]),
{
    let mut records: Vec<Vec<Vec<u8>>> = Vec::new();
    records.push(event_record(event));
    proof {
        lemma_records_fit(seq![*event]);
        assert(seq![*event].map_values(|e: NostrEvent| record_spec(e)) =~= seq![record_spec(*event)]);
        assert(records.deep_view() =~= seq![record_spec(*event)]);
    }
    write_records(&records)
}

/// Encodes `event` as a packed message of one record.
pub fn serialize_event_packed(event: &NostrEvent) -> (r: Vec<u8>)
    requires
        event_fits(*event),
    ensures
        r@ == capnp_packed_message(seq![record_spec(*event)]),
{
    let mut records: Vec<Vec<Vec<u8>>> = Vec::new();
    records.push(event_record(event));
    proof {
        lemma_records_fit(seq![*event]);
        assert(seq![*event].map_values(|e: NostrEvent| record_spec(e)) =~= seq![record_spec(*event)]);
        assert(records.deep_view() =~= seq![record_spec(*event)]);
    }
    write_records_packed(&records)
}

/// Encodes `events` as a message of one record each.
pub fn serialize_batch(events: &[NostrEvent]) -> (r: Vec<u8>)
    requires
        events@.len() <= MAX_LIST_LEN,
        forall|i: int| 0 <= i < events@.len() ==> event_fits(#[trigger] events@[i]),
    ensures
        r@ == capnp_message(events@.map_values(|e: NostrEvent| record_spec(e))),
{
    let records = event_records(events);
    proof {
        lemma_records_fit(events@);
    }
    write_records(&records)
}

/// Encodes `events` as a packed message of one record each.
pub fn serialize_batch_packed(events: &[NostrEvent]) -> (r: Vec<u8>)
    requires
        events@.len() <= MAX_LIST_LEN,
        forall|i: int| 0 <= i < events@.len() ==> event_fits(#[trigger] events@[i]),
    ensures
        r@ == capnp_packed_message(events@.map_values(|e: NostrEvent| record_spec(e))),
{
    let records = event_records(events);
    proof {
        lemma_records_fit(events@);
    }
    write_records_packed(&records)
}

/// The events of a message's records; any malformed record fails the whole message.
fn records_to_events(records: &Vec<Vec<Vec<u8>>>) -> (r: Result<Vec<NostrEvent>, CapnpError>)
    ensures
        r is Ok ==> r->Ok_0@.len() == records@.len(),
{
    let mut out: Vec<NostrEvent> = Vec::new();
    let mut i: usize = 0;
    while i < records.len()
        invariant
            i <= records@.len(),
            out@.len() == i,
        decreases records@.len() - i,
    {
        match record_to_event(&records[i]) {
            Ok(e) => out.push(e),
            Err(e) => return Err(e),
        }
        i = i + 1;
    }
    Ok(out)
}

/// The one event of a message's records.
fn single_event(records: &Vec<Vec<Vec<u8>>>) -> (r: Result<NostrEvent, CapnpError>) {
    if records.len() != 1 {
        return Err(CapnpError::InvalidLength("message"));
    }
    record_to_event(&records[0])
}

/// Decodes a message of one record.
pub fn deserialize_event(data: &[u8]) -> (r: Result<NostrEvent, CapnpError>) {
    match read_records(data) {
        Ok(records) => single_event(&records),
        Err(e) => Err(CapnpError::Capnp(e)),
    }
}

/// Decodes a packed message of one record.
pub fn deserialize_event_packed(data: &[u8]) -> (r: Result<NostrEvent, CapnpError>) {
    match read_records_packed(data) {
        Ok(records) => single_event(&records),
        Err(e) => Err(CapnpError::Capnp(e)),
    }
}

/// Decodes a message of records.
pub fn deserialize_batch(data: &[u8]) -> (r: Result<Vec<NostrEvent>, CapnpError>) {
    match read_records(data) {
        Ok(records) => records_to_events(&records),
        Err(e) => Err(CapnpError::Capnp(e)),
    }
}

/// Decodes a packed message of records.
pub fn deserialize_batch_packed(data: &[u8]) -> (r: Result<Vec<NostrEvent>, CapnpError>) {
    match read_records_packed(data) {
        Ok(records) => records_to_events(&records),
        Err(e) => Err(CapnpError::Capnp(e)),
    }
}

/// A value whose hex storage gives it back: not hex text, or hex text in lowercase.
pub open spec fn keeps_case(v: Seq<char>) -> bool {
    is_hex_text(v) ==> hex_text(hex_bytes(v)) == v
}

proof fn lemma_values_cons(v: Seq<char>, vs: Seq<Seq<char>>)
    ensures
        values_spec(seq![v] + vs) == value_spec(v) + values_spec(vs),
    decreases vs.len(),
{
    let all = seq![v] + vs;
    if vs.len() == 0 {
        assert(all.drop_last() =~= Seq::<Seq<char>>::empty());
        assert(all.last() == v);
        assert(values_spec(all.drop_last()) == Seq::<u8>::empty());
        assert(values_spec(vs) == Seq::<u8>::empty());
        assert(values_spec(all) =~= value_spec(v) + values_spec(vs));
    } else {
        assert(all.drop_last() =~= seq![v] + vs.drop_last());
        lemma_values_cons(v, vs.drop_last());
        assert(values_spec(all) =~= value_spec(v) + values_spec(vs));
    }
}

proof fn lemma_tag_list_cons(t: Seq<Seq<char>>, ts: Seq<Seq<Seq<char>>>)
    ensures
        tag_list_spec(seq![t] + ts) == (seq![t.len() as u8] + values_spec(t)) + tag_list_spec(ts),
    decreases ts.len(),
{
    let all = seq![t] + ts;
    if ts.len() == 0 {
        assert(all.drop_last() =~= Seq::<Seq<Seq<char>>>::empty());
        assert(all.last() == t);
        assert(tag_list_spec(all.drop_last()) == Seq::<u8>::empty());
        assert(tag_list_spec(ts) == Seq::<u8>::empty());
        assert(tag_list_spec(all) =~= (seq![t.len() as u8] + values_spec(t)) + tag_list_spec(ts));
    } else {
        assert(all.drop_last() =~= seq![t] + ts.drop_last());
        lemma_tag_list_cons(t, ts.drop_last());
        assert(tag_list_spec(all) =~= (seq![t.len() as u8] + values_spec(t)) + tag_list_spec(ts));
    }
}

proof fn lemma_value_roundtrip(v: Seq<char>, rest: Seq<u8>)
    requires
        encode_utf8(v).len() <= MAX_VALUE_LEN,
        keeps_case(v),
    ensures
        parse_value(value_spec(v) + rest) == Ok::<(Seq<char>, nat), CapnpError>((v, value_spec(v).len())),
{
    lemma_auto_spec_u16_to_from_le_bytes();
    encode_utf8_valid_utf8(v);
    encode_utf8_decode_utf8(v);
    let data = stored_value(v);
    if is_hex_text(v) {
        lemma_hex_text_len(v);
    }
    let flags: nat = if is_hex_text(v) { 0x8000 } else { 0 };
    let f = (flags + data.len()) as u16;
    let d = value_spec(v) + rest;
    assert(d.subrange(0, 2) =~= spec_u16_to_le_bytes(f));
    assert(f % 0x8000 == data.len());
    assert(d.subrange(2, 2 + data.len() as int) =~= data);
}

proof fn lemma_values_roundtrip(vals: Seq<Seq<char>>, rest: Seq<u8>)
    requires
        forall|j: int| 0 <= j < vals.len() ==> encode_utf8(#[trigger] vals[j]).len() <= MAX_VALUE_LEN,
        forall|j: int| 0 <= j < vals.len() ==> keeps_case(#[trigger] vals[j]),
    ensures
        parse_values(values_spec(vals) + rest, vals.len()) == Ok::<(Seq<Seq<char>>, nat), CapnpError>(
            (vals, values_spec(vals).len()),
        ),
    decreases vals.len(),
{
    if vals.len() == 0 {
        assert(vals =~= Seq::<Seq<char>>::empty());
    } else {
        let v = vals[0];
        let tail = vals.drop_first();
        assert(seq![v] + tail =~= vals);
        lemma_values_cons(v, tail);
        let d = values_spec(vals) + rest;
        assert(d =~= value_spec(v) + (values_spec(tail) + rest));
        assert(keeps_case(vals[0]) && encode_utf8(vals[0]).len() <= MAX_VALUE_LEN);
        lemma_value_roundtrip(v, values_spec(tail) + rest);
        assert(d.subrange(value_spec(v).len() as int, d.len() as int) =~= values_spec(tail) + rest);
        assert forall|j: int| 0 <= j < tail.len() implies encode_utf8(#[trigger] tail[j]).len() <= MAX_VALUE_LEN
            && keeps_case(tail[j]) by {
            assert(tail[j] == vals[j + 1]);
        }
        lemma_values_roundtrip(tail, rest);
    }
}

proof fn lemma_tag_list_roundtrip(tags: Seq<Seq<Seq<char>>>, rest: Seq<u8>)
    requires
        tags_fit(tags),
        forall|i: int, j: int| 0 <= i < tags.len() && 0 <= j < tags[i].len() ==> keeps_case(#[trigger] tags[i][j]),
    ensures
        parse_tag_list(tag_list_spec(tags) + rest, tags.len()) == Ok::<Seq<Seq<Seq<char>>>, CapnpError>(tags),
    decreases tags.len(),
{
    if tags.len() == 0 {
        assert(tags =~= Seq::<Seq<Seq<char>>>::empty());
    } else {
        let t = tags[0];
        let tail = tags.drop_first();
        assert(seq![t] + tail =~= tags);
        lemma_tag_list_cons(t, tail);
        let d = tag_list_spec(tags) + rest;
        let head = seq![t.len() as u8] + values_spec(t);
        assert(d =~= head + (tag_list_spec(tail) + rest));
        assert(t.len() <= 255);
        assert(d[0] == t.len() as u8);
        assert(d.drop_first() =~= values_spec(t) + (tag_list_spec(tail) + rest));
        assert forall|j: int| 0 <= j < t.len() implies encode_utf8(#[trigger] t[j]).len() <= MAX_VALUE_LEN
            && keeps_case(t[j]) by {
            assert(t[j] == tags[0][j]);
        }
        lemma_values_roundtrip(t, tag_list_spec(tail) + rest);
        assert(d.subrange(head.len() as int, d.len() as int) =~= tag_list_spec(tail) + rest);
        assert forall|i: int| 0 <= i < tail.len() implies (#[trigger] tail[i]).len() <= 255 by {
            assert(tail[i] == tags[i + 1]);
        }
        assert forall|i: int, j: int| 0 <= i < tail.len() && 0 <= j < tail[i].len() implies encode_utf8(
            #[trigger] tail[i][j],
        ).len() <= MAX_VALUE_LEN && keeps_case(tail[i][j]) by {
            assert(tail[i] == tags[i + 1]);
        }
        lemma_tag_list_roundtrip(tail, rest);
    }
}

/// Decoding the tag blob of tags within its limits gives back the tags, when
/// no value is hex text with an uppercase digit (such a value comes back in lowercase).
pub proof fn lemma_tags_roundtrip(tags: Seq<Seq<Seq<char>>>)
    requires
        tags_fit(tags),
        forall|i: int, j: int| 0 <= i < tags.len() && 0 <= j < tags[i].len() ==> keeps_case(#[trigger] tags[i][j]),
    ensures
        parse_tags(tags_spec(tags)) == Ok::<Seq<Seq<Seq<char>>>, CapnpError>(tags),
{
    lemma_auto_spec_u16_to_from_le_bytes();
    let d = tags_spec(tags);
    assert(d.subrange(0, 2) =~= spec_u16_to_le_bytes(tags.len() as u16));
    assert(d.subrange(2, d.len() as int) =~= tag_list_spec(tags) + Seq::<u8>::empty());
    lemma_tag_list_roundtrip(tags, Seq::empty());
}

} // verus!
