//! DannyPack: the compact binary format for Nostr events.
//!
//! Layout of one record, all integers little-endian:
//!
//! ```text
//! [id: 32][pubkey: 32][sig: 64][created_at: i64][kind: u16]   fixed block, 138 bytes
//! [varint: tag section length]
//!   [varint: tag count]
//!   per tag: [u8: value count] then one run per value
//! [run: content]
//! ```
//!
//! A run is a length/flag header followed by the text's bytes, or by the bytes
//! that its lowercase hex spells when the hex heuristic accepts it.
//! A batch is `[u32: count]` followed by `[u32: record length][record]` per record.

use vstd::prelude::*;
pub use crate::wire::DannyPackError;
use vstd::bytes::{
    lemma_auto_spec_u16_to_from_le_bytes, lemma_auto_spec_u32_to_from_le_bytes,
    lemma_auto_spec_u64_to_from_le_bytes, spec_u16_from_le_bytes, spec_u16_to_le_bytes,
    spec_u32_from_le_bytes, spec_u32_to_le_bytes, spec_u64_from_le_bytes, spec_u64_to_le_bytes,
    u16_from_le_bytes, u16_to_le_bytes, u32_from_le_bytes, u32_to_le_bytes, u64_from_le_bytes,
    u64_to_le_bytes,
};
use vstd::utf8::encode_utf8;
use crate::event::{EventModel, NostrEvent};
use crate::event::saturate;
use crate::wire::{
    lemma_hex_run_shorter, literal_run, lemma_run_extend, lemma_run_roundtrip, lemma_varint_extend, lemma_varint_len_bound,
    lemma_varint_roundtrip, parse_run, parse_varint, read_run, read_varint, run_spec, varint_spec,
    write_run, write_varint, MAX_VARINT_LEN,
};

verus! {

/// Size of the fixed block: id, pubkey, sig, created_at and kind.
pub const FIXED_SIZE: usize = 138;

/// The most values one tag can hold: its count is stored in one byte.
pub const MAX_TAG_VALUES: usize = 255;

/// The run that stores one string.
pub open spec fn value_run(v: Seq<char>) -> Seq<u8> {
    run_spec(encode_utf8(v))
}

/// The runs of a tag's values, one after the other.
pub open spec fn values_spec(vals: Seq<Seq<char>>) -> Seq<u8>
    decreases vals.len(),
{
    if vals.len() == 0 {
        Seq::empty()
    } else {
        value_run(vals[0]) + values_spec(vals.drop_first())
    }
}

/// One tag: its value count, then its values.
pub open spec fn tag_spec(tag: Seq<Seq<char>>) -> Seq<u8> {
    seq![tag.len() as u8] + values_spec(tag)
}

/// The tags, one after the other.
pub open spec fn tag_list_spec(tags: Seq<Seq<Seq<char>>>) -> Seq<u8>
    decreases tags.len(),
{
    if tags.len() == 0 {
        Seq::empty()
    } else {
        tag_spec(tags[0]) + tag_list_spec(tags.drop_first())
    }
}

/// The tag section: the tag count, then the tags.
pub open spec fn tags_spec(tags: Seq<Seq<Seq<char>>>) -> Seq<u8> {
    varint_spec(tags.len()) + tag_list_spec(tags)
}

/// Decodes one tag value; a malformed run is an error of the tag list.
pub open spec fn parse_value(d: Seq<u8>) -> Result<(Seq<char>, nat), DannyPackError> {
    match parse_run(d) {
        Ok(x) => Ok(x),
        Err(DannyPackError::InvalidUtf8) => Err(DannyPackError::InvalidUtf8),
        Err(_) => Err(DannyPackError::InvalidTagData),
    }
}

/// Decodes `k` tag values from the front of `d`.
pub open spec fn parse_values(d: Seq<u8>, k: nat) -> Result<(Seq<Seq<char>>, nat), DannyPackError>
    decreases k,
{
    if k == 0 {
        Ok((Seq::empty(), 0))
    } else {
        match parse_value(d) {
            Err(e) => Err(e),
            Ok((v, n)) => match parse_values(d.subrange(n as int, d.len() as int), (k - 1) as nat) {
                Err(e) => Err(e),
                Ok((vs, m)) => Ok((seq![v] + vs, n + m)),
            },
        }
    }
}

/// Decodes one tag from the front of `d`.
pub open spec fn parse_tag(d: Seq<u8>) -> Result<(Seq<Seq<char>>, nat), DannyPackError> {
    if d.len() == 0 {
        Err(DannyPackError::InvalidTagData)
    } else {
        match parse_values(d.drop_first(), d[0] as nat) {
            Ok((vs, m)) => Ok((vs, m + 1)),
            Err(e) => Err(e),
        }
    }
}

/// Decodes `k` tags from the front of `d`.
pub open spec fn parse_tag_list(d: Seq<u8>, k: nat) -> Result<(Seq<Seq<Seq<char>>>, nat), DannyPackError>
    decreases k,
{
    if k == 0 {
        Ok((Seq::empty(), 0))
    } else {
        match parse_tag(d) {
            Err(e) => Err(e),
            Ok((t, n)) => match parse_tag_list(d.subrange(n as int, d.len() as int), (k - 1) as nat) {
                Err(e) => Err(e),
                Ok((ts, m)) => Ok((seq![t] + ts, n + m)),
            },
        }
    }
}

/// Decodes a tag section that spans exactly `d`; an empty section holds no tags.
pub open spec fn parse_tags_section(d: Seq<u8>) -> Result<Seq<Seq<Seq<char>>>, DannyPackError> {
    if d.len() == 0 {
        Ok(Seq::empty())
    } else {
        match parse_varint(d) {
            Err(_) => Err(DannyPackError::InvalidTagData),
            Ok((c, n)) => match parse_tag_list(d.subrange(n as int, d.len() as int), c as nat) {
                Ok((tags, _)) => Ok(tags),
                Err(e) => Err(e),
            },
        }
    }
}

/// Prefixes the already decoded `acc` (which took `off` bytes) to the result `r`.
pub open spec fn prepend<A>(acc: Seq<A>, off: nat, r: Result<(Seq<A>, nat), DannyPackError>) -> Result<(Seq<A>, nat), DannyPackError> {
    match r {
        Ok((xs, m)) => Ok((acc + xs, off + m)),
        Err(e) => Err(e),
    }
}

proof fn lemma_values_snoc(vals: Seq<Seq<char>>, x: Seq<char>)
    ensures
        values_spec(vals.push(x)) == values_spec(vals) + value_run(x),
    decreases vals.len(),
{
    if vals.len() == 0 {
        assert(vals.push(x).drop_first() =~= Seq::<Seq<char>>::empty());
        assert(vals.push(x)[0] == x);
        assert(values_spec(vals.push(x).drop_first()) == Seq::<u8>::empty());
        assert(values_spec(vals) == Seq::<u8>::empty());
        assert(values_spec(vals.push(x)) =~= values_spec(vals) + value_run(x));
    } else {
        assert(vals.push(x).drop_first() =~= vals.drop_first().push(x));
        lemma_values_snoc(vals.drop_first(), x);
        assert(values_spec(vals.push(x)) =~= values_spec(vals) + value_run(x));
    }
}

proof fn lemma_tag_list_snoc(tags: Seq<Seq<Seq<char>>>, x: Seq<Seq<char>>)
    ensures
        tag_list_spec(tags.push(x)) == tag_list_spec(tags) + tag_spec(x),
    decreases tags.len(),
{
    if tags.len() == 0 {
        assert(tags.push(x).drop_first() =~= Seq::<Seq<Seq<char>>>::empty());
        assert(tags.push(x)[0] == x);
        assert(tag_list_spec(tags.push(x).drop_first()) == Seq::<u8>::empty());
        assert(tag_list_spec(tags) == Seq::<u8>::empty());
        assert(tag_list_spec(tags.push(x)) =~= tag_list_spec(tags) + tag_spec(x));
    } else {
        assert(tags.push(x).drop_first() =~= tags.drop_first().push(x));
        lemma_tag_list_snoc(tags.drop_first(), x);
        assert(tag_list_spec(tags.push(x)) =~= tag_list_spec(tags) + tag_spec(x));
    }
}

/// Appends the runs of `tag`'s values to `out`.
fn pack_values(tag: &Vec<String>, out: &mut Vec<u8>)
    ensures
        final(out)@ == old(out)@ + values_spec(tag.deep_view()),
{
    let ghost vals = tag.deep_view();
    let mut j: usize = 0;
    while j < tag.len()
        invariant
            j <= tag@.len(),
            vals == tag.deep_view(),
            out@ == old(out)@ + values_spec(vals.take(j as int)),
        decreases tag@.len() - j,
    {
        let ghost before = out@;
        write_run(out, tag[j].as_str().as_bytes());
        proof {
            assert(vals.take(j + 1) =~= vals.take(j as int).push(vals[j as int]));
            lemma_values_snoc(vals.take(j as int), vals[j as int]);
        }
        j = j + 1;
    }
    assert(vals.take(j as int) =~= vals);
}

/// Appends the tag section of `tags` to `out`.
pub fn pack_tags(tags: &Vec<Vec<String>>, out: &mut Vec<u8>)
    requires
        forall|i: int| 0 <= i < tags@.len() ==> (#[trigger] tags@[i])@.len() <= MAX_TAG_VALUES,
    ensures
        final(out)@ == old(out)@ + tags_spec(tags.deep_view()),
{
    let ghost all = tags.deep_view();
    write_varint(out, tags.len() as u64);
    let ghost base = out@;
    let mut i: usize = 0;
    while i < tags.len()
        invariant
            i <= tags@.len(),
            all == tags.deep_view(),
            base == old(out)@ + varint_spec(tags@.len() as nat),
            forall|k: int| 0 <= k < tags@.len() ==> (#[trigger] tags@[k])@.len() <= MAX_TAG_VALUES,
            out@ == base + tag_list_spec(all.take(i as int)),
        decreases tags@.len() - i,
    {
        let tag = &tags[i];
        let ghost before = out@;
        out.push(tag.len() as u8);
        pack_values(tag, out);
        proof {
            assert(all[i as int] == tag.deep_view());
            assert(all[i as int].len() == tag@.len());
            assert(out@ =~= before + tag_spec(all[i as int]));
            assert(all.take(i + 1) =~= all.take(i as int).push(all[i as int]));
            lemma_tag_list_snoc(all.take(i as int), all[i as int]);
        }
        i = i + 1;
    }
    assert(all.take(i as int) =~= all);
    assert(out@ =~= old(out)@ + tags_spec(all));
}

/// Decodes `count` tag values from `data[pos..limit]`.
fn unpack_values(data: &[u8], pos: usize, limit: usize, count: u64) -> (r: Result<(Vec<String>, usize), DannyPackError>)
    requires
        pos <= limit <= data@.len(),
    ensures
        match (r, parse_values(data@.subrange(pos as int, limit as int), count as nat)) {
            (Ok((vs, n)), Ok((svs, sn))) => vs.deep_view() == svs && n == sn,
            (Err(e), Err(se)) => e == se,
            _ => false,
        },
        r is Ok ==> r->Ok_0.1 <= limit - pos,
{
    let ghost whole = data@.subrange(pos as int, limit as int);
    let mut vals: Vec<String> = Vec::new();
    let mut p = pos;
    let mut j: u64 = 0;
    while j < count
        invariant
            pos <= p <= limit <= data@.len(),
            j <= count,
            whole == data@.subrange(pos as int, limit as int),
            parse_values(whole, count as nat) == prepend(
                vals.deep_view(),
                (p - pos) as nat,
                parse_values(data@.subrange(p as int, limit as int), (count - j) as nat),
            ),
        decreases count - j,
    {
        let ghost d = data@.subrange(p as int, limit as int);
        let ghost acc = vals.deep_view();
        match read_run(data, p, limit) {
            Ok((s, n)) => {
                proof {
                    lemma_run_extend(d, Seq::empty());
                    assert(d + Seq::<u8>::empty() =~= d);
                    assert(d.subrange(n as int, d.len() as int) =~= data@.subrange(p + n, limit as int));
                }
                let ghost sv = s@;
                vals.push(s);
                proof {
                    assert(vals.deep_view() =~= acc.push(sv));
                    match parse_values(data@.subrange(p + n, limit as int), (count - j - 1) as nat) {
                        Ok((vs, m)) => {
                            assert(acc + (seq![sv] + vs) =~= acc.push(sv) + vs);
                        },
                        Err(_) => {},
                    }
                }
                p = p + n;
                j = j + 1;
            },
            Err(e) => {
                if e == DannyPackError::InvalidUtf8 {
                    return Err(DannyPackError::InvalidUtf8);
                } else {
                    return Err(DannyPackError::InvalidTagData);
                }
            },
        }
    }
    assert(vals.deep_view() + Seq::<Seq<char>>::empty() =~= vals.deep_view());
    Ok((vals, p - pos))
}

/// Decodes one tag from `data[pos..limit]`.
fn unpack_tag(data: &[u8], pos: usize, limit: usize) -> (r: Result<(Vec<String>, usize), DannyPackError>)
    requires
        pos <= limit <= data@.len(),
    ensures
        match (r, parse_tag(data@.subrange(pos as int, limit as int))) {
            (Ok((t, n)), Ok((st, sn))) => t.deep_view() == st && n == sn,
            (Err(e), Err(se)) => e == se,
            _ => false,
        },
        r is Ok ==> r->Ok_0.1 <= limit - pos,
{
    let ghost d = data@.subrange(pos as int, limit as int);
    if pos >= limit {
        return Err(DannyPackError::InvalidTagData);
    }
    let count = data[pos];
    assert(data@.subrange(pos + 1, limit as int) =~= d.drop_first());
    match unpack_values(data, pos + 1, limit, count as u64) {
        Ok((vals, n)) => Ok((vals, n + 1)),
        Err(e) => Err(e),
    }
}

/// Decodes `count` tags from `data[pos..limit]`.
fn unpack_tag_list(data: &[u8], pos: usize, limit: usize, count: u64) -> (r: Result<Vec<Vec<String>>, DannyPackError>)
    requires
        pos <= limit <= data@.len(),
    ensures
        match (r, parse_tag_list(data@.subrange(pos as int, limit as int), count as nat)) {
            (Ok(ts), Ok((sts, _))) => ts.deep_view() == sts,
            (Err(e), Err(se)) => e == se,
            _ => false,
        },
{
    let ghost whole = data@.subrange(pos as int, limit as int);
    let mut tags: Vec<Vec<String>> = Vec::new();
    let mut p = pos;
    let mut i: u64 = 0;
    while i < count
        invariant
            pos <= p <= limit <= data@.len(),
            i <= count,
            whole == data@.subrange(pos as int, limit as int),
            parse_tag_list(whole, count as nat) == prepend(
                tags.deep_view(),
                (p - pos) as nat,
                parse_tag_list(data@.subrange(p as int, limit as int), (count - i) as nat),
            ),
        decreases count - i,
    {
        let ghost d = data@.subrange(p as int, limit as int);
        let ghost acc = tags.deep_view();
        match unpack_tag(data, p, limit) {
            Ok((t, n)) => {
                proof {
                    assert(d.subrange(n as int, d.len() as int) =~= data@.subrange(p + n, limit as int));
                }
                let ghost tv = t.deep_view();
                tags.push(t);
                proof {
                    assert(tags.deep_view() =~= acc.push(tv));
                    match parse_tag_list(data@.subrange(p + n, limit as int), (count - i - 1) as nat) {
                        Ok((ts, m)) => {
                            assert(acc + (seq![tv] + ts) =~= acc.push(tv) + ts);
                        },
                        Err(_) => {},
                    }
                }
                p = p + n;
                i = i + 1;
            },
            Err(e) => {
                return Err(e);
            },
        }
    }
    assert(tags.deep_view() + Seq::<Seq<Seq<char>>>::empty() =~= tags.deep_view());
    Ok(tags)
}

/// Decodes the tag section that spans exactly `data[pos..limit]`.
pub fn unpack_tags(data: &[u8], pos: usize, limit: usize) -> (r: Result<Vec<Vec<String>>, DannyPackError>)
    requires
        pos <= limit <= data@.len(),
    ensures
        match (r, parse_tags_section(data@.subrange(pos as int, limit as int))) {
            (Ok(ts), Ok(sts)) => ts.deep_view() == sts,
            (Err(e), Err(se)) => e == se,
            _ => false,
        },
{
    let ghost d = data@.subrange(pos as int, limit as int);
    if pos == limit {
        let tags: Vec<Vec<String>> = Vec::new();
        assert(tags.deep_view() =~= Seq::<Seq<Seq<char>>>::empty());
        return Ok(tags);
    }
    let window = &data[0..limit];
    assert(window@.subrange(pos as int, window@.len() as int) =~= d);
    match read_varint(window, pos) {
        Ok((count, n)) => {
            proof {
                lemma_varint_extend(d, Seq::empty(), MAX_VARINT_LEN as nat);
            }
            assert(d.subrange(n as int, d.len() as int) =~= data@.subrange(pos + n, limit as int));
            unpack_tag_list(data, pos + n, limit, count)
        },
        Err(_) => Err(DannyPackError::InvalidTagData),
    }
}

/// The fixed block: id, pubkey, sig, then created_at and kind little-endian.
pub open spec fn fixed_spec(m: EventModel) -> Seq<u8> {
    m.id + m.pubkey + m.sig + spec_u64_to_le_bytes(m.created_at as u64) + spec_u16_to_le_bytes(m.kind)
}

/// The encoding of one record.
pub open spec fn encode_spec(m: EventModel) -> Seq<u8> {
    let t = tags_spec(m.tags);
    fixed_spec(m) + varint_spec(t.len()) + t + value_run(m.content)
}

/// The record whose fixed block is the front of `d`, with the given tags and content.
pub open spec fn fixed_model(d: Seq<u8>, tags: Seq<Seq<Seq<char>>>, content: Seq<char>) -> EventModel {
    EventModel {
        id: d.subrange(0, 32),
        pubkey: d.subrange(32, 64),
        sig: d.subrange(64, 128),
        created_at: spec_u64_from_le_bytes(d.subrange(128, 136)) as i64,
        kind: spec_u16_from_le_bytes(d.subrange(136, 138)),
        tags,
        content,
    }
}

/// Decodes the record at the front of `d`: the record and the bytes it took.
pub open spec fn parse_record(d: Seq<u8>) -> Result<(EventModel, nat), DannyPackError> {
    if d.len() < FIXED_SIZE {
        Err(DannyPackError::TooShort)
    } else {
        match parse_varint(d.subrange(FIXED_SIZE as int, d.len() as int)) {
            Err(e) => Err(e),
            Ok((tl, n)) => {
                let ts: nat = FIXED_SIZE as nat + n;
                if tl > d.len() - ts {
                    Err(DannyPackError::TooShort)
                } else {
                    let te: nat = ts + tl as nat;
                    match parse_tags_section(d.subrange(ts as int, te as int)) {
                        Err(e) => Err(e),
                        Ok(tags) => match parse_run(d.subrange(te as int, d.len() as int)) {
                            Err(e) => Err(e),
                            Ok((content, m)) => Ok((fixed_model(d, tags, content), te + m)),
                        },
                    }
                }
            },
        }
    }
}

/// Appends the fixed block of `event` to `buf`.
pub fn pack_fixed_data(event: &NostrEvent, buf: &mut Vec<u8>)
    ensures
        final(buf)@ == old(buf)@ + fixed_spec(event@),
{
    buf.extend_from_slice(event.id.as_slice());
    buf.extend_from_slice(event.pubkey.as_slice());
    buf.extend_from_slice(event.sig.as_slice());
    let created = u64_to_le_bytes(event.created_at as u64);
    buf.extend_from_slice(created.as_slice());
    let kind = u16_to_le_bytes(event.kind);
    buf.extend_from_slice(kind.as_slice());
    assert(buf@ =~= old(buf)@ + fixed_spec(event@));
}

/// Copies `data[pos..pos + N]` into an array.
fn copy_array<const N: usize>(data: &[u8], pos: usize) -> (r: [u8; N])
    requires
        pos + N <= data@.len(),
    ensures
        r@ == data@.subrange(pos as int, pos + N),
{
    let mut r = [0u8; N];
    let mut i: usize = 0;
    let len = data.len();
    while i < N
        invariant
            len == data@.len(),
            pos + N <= data@.len(),
            i <= N,
            r@.len() == N,
            forall|k: int| 0 <= k < i ==> r@[k] == data@[pos + k],
        decreases N - i,
    {
        r[i] = data[pos + i];
        i = i + 1;
    }
    assert(r@ =~= data@.subrange(pos as int, pos + N));
    r
}

/// Reads the fixed block at the front of `data`: id, pubkey, sig, created_at, kind.
pub fn unpack_fixed_data(data: &[u8]) -> (r: ([u8; 32], [u8; 32], [u8; 64], i64, u16))
    requires
        data@.len() >= FIXED_SIZE,
    ensures
        r.0@ == data@.subrange(0, 32),
        r.1@ == data@.subrange(32, 64),
        r.2@ == data@.subrange(64, 128),
        r.3 == spec_u64_from_le_bytes(data@.subrange(128, 136)) as i64,
        r.4 == spec_u16_from_le_bytes(data@.subrange(136, 138)),
{
    let id: [u8; 32] = copy_array(data, 0);
    let pubkey: [u8; 32] = copy_array(data, 32);
    let sig: [u8; 64] = copy_array(data, 64);
    let created_at = u64_from_le_bytes(&data[128..136]) as i64;
    let kind = u16_from_le_bytes(&data[136..138]);
    (id, pubkey, sig, created_at, kind)
}

/// Well-formedness the compact format asks of an event: no tag holds more than 255 values.
pub open spec fn packable(event: &NostrEvent) -> bool {
    forall|i: int| 0 <= i < event.tags@.len() ==> (#[trigger] event.tags@[i])@.len() <= MAX_TAG_VALUES
}

/// Appends the encoding of `event` to `buf`.
pub fn serialize(event: &NostrEvent, buf: &mut Vec<u8>)
    requires
        packable(event),
    ensures
        final(buf)@ == old(buf)@ + encode_spec(event@),
{
    let max_tags = calc_max_tags_size(&event.tags);
    let content_len = event.content.as_str().as_bytes().len();
    buf.reserve(FIXED_SIZE.saturating_add(MAX_VARINT_LEN).saturating_add(max_tags).saturating_add(
        1 + MAX_VARINT_LEN).saturating_add(content_len));
    pack_fixed_data(event, buf);
    let mut tags: Vec<u8> = Vec::with_capacity(max_tags);
    pack_tags(&event.tags, &mut tags);
    write_varint(buf, tags.len() as u64);
    buf.extend_from_slice(tags.as_slice());
    write_run(buf, event.content.as_str().as_bytes());
    assert(buf@ =~= old(buf)@ + encode_spec(event@));
}

/// Decodes one record from the front of `data`.
pub fn deserialize(data: &[u8]) -> (r: Result<NostrEvent, DannyPackError>)
    ensures
        match (r, parse_record(data@)) {
            (Ok(e), Ok((m, _))) => e@ == m,
            (Err(e), Err(se)) => e == se,
            _ => false,
        },
{
    let len = data.len();
    if len < FIXED_SIZE {
        return Err(DannyPackError::TooShort);
    }
    let (id, pubkey, sig, created_at, kind) = unpack_fixed_data(data);
    let ghost after_fixed = data@.subrange(FIXED_SIZE as int, len as int);
    let (tag_len, n) = match read_varint(data, FIXED_SIZE) {
        Ok(x) => x,
        Err(e) => return Err(e),
    };
    proof {
        lemma_varint_extend(after_fixed, Seq::empty(), MAX_VARINT_LEN as nat);
    }
    let ts = FIXED_SIZE + n;
    if tag_len > (len - ts) as u64 {
        return Err(DannyPackError::TooShort);
    }
    let te = ts + tag_len as usize;
    let tags = match unpack_tags(data, ts, te) {
        Ok(t) => t,
        Err(e) => return Err(e),
    };
    let (content, _m) = match read_run(data, te, len) {
        Ok(x) => x,
        Err(e) => return Err(e),
    };
    let event = NostrEvent { id, pubkey, created_at, kind, tags, content, sig };
    assert(event@ =~= fixed_model(data@, tags.deep_view(), content@));
    Ok(event)
}

/// Decodes one record from the front of `data` into `event`. On an error
/// `event` is left as it was.
pub fn deserialize_into(data: &[u8], event: &mut NostrEvent) -> (r: Result<(), DannyPackError>)
    ensures
        match (r, parse_record(data@)) {
            (Ok(()), Ok((m, _))) => final(event)@ == m,
            (Err(e), Err(se)) => e == se && *final(event) == *old(event),
            _ => false,
        },
{
    match deserialize(data) {
        Ok(e) => {
            *event = e;
            Ok(())
        },
        Err(e) => Err(e),
    }
}

/// The views of a sequence of events.
pub open spec fn models(events: Seq<NostrEvent>) -> Seq<EventModel> {
    events.map_values(|e: NostrEvent| e@)
}

/// Length-prefixed records, one after the other.
pub open spec fn batch_items_spec(ms: Seq<EventModel>) -> Seq<u8>
    decreases ms.len(),
{
    if ms.len() == 0 {
        Seq::empty()
    } else {
        let rec = encode_spec(ms[0]);
        spec_u32_to_le_bytes(rec.len() as u32) + rec + batch_items_spec(ms.drop_first())
    }
}

/// A batch: the record count, then the length-prefixed records.
pub open spec fn batch_spec(ms: Seq<EventModel>) -> Seq<u8> {
    spec_u32_to_le_bytes(ms.len() as u32) + batch_items_spec(ms)
}

/// Decodes `k` length-prefixed records from the front of `d`.
pub open spec fn parse_batch_items(d: Seq<u8>, k: nat) -> Result<Seq<EventModel>, DannyPackError>
    decreases k,
{
    if k == 0 {
        Ok(Seq::empty())
    } else if d.len() < 4 {
        Err(DannyPackError::TooShort)
    } else {
        let n = spec_u32_from_le_bytes(d.subrange(0, 4)) as int;
        if n > d.len() - 4 {
            Err(DannyPackError::TooShort)
        } else {
            match parse_record(d.subrange(4, 4 + n)) {
                Err(e) => Err(e),
                Ok((m, _)) => match parse_batch_items(d.subrange(4 + n, d.len() as int), (k - 1) as nat) {
                    Err(e) => Err(e),
                    Ok(ms) => Ok(seq![m] + ms),
                },
            }
        }
    }
}

/// Decodes a batch: the count, then that many length-prefixed records.
pub open spec fn parse_batch(d: Seq<u8>) -> Result<Seq<EventModel>, DannyPackError> {
    if d.len() < 4 {
        Err(DannyPackError::TooShort)
    } else {
        parse_batch_items(d.subrange(4, d.len() as int), spec_u32_from_le_bytes(d.subrange(0, 4)) as nat)
    }
}

pub open spec fn prepend_models(acc: Seq<EventModel>, r: Result<Seq<EventModel>, DannyPackError>) -> Result<Seq<EventModel>, DannyPackError> {
    match r {
        Ok(ms) => Ok(acc + ms),
        Err(e) => Err(e),
    }
}

proof fn lemma_batch_items_snoc(ms: Seq<EventModel>, x: EventModel)
    ensures
        batch_items_spec(ms.push(x)) == batch_items_spec(ms) + (spec_u32_to_le_bytes(
            encode_spec(x).len() as u32,
        ) + encode_spec(x)),
    decreases ms.len(),
{
    if ms.len() == 0 {
        assert(ms.push(x).drop_first() =~= Seq::<EventModel>::empty());
        assert(ms.push(x)[0] == x);
        assert(batch_items_spec(ms.push(x).drop_first()) == Seq::<u8>::empty());
        assert(batch_items_spec(ms) == Seq::<u8>::empty());
        assert(batch_items_spec(ms.push(x)) =~= batch_items_spec(ms) + (spec_u32_to_le_bytes(
            encode_spec(x).len() as u32,
        ) + encode_spec(x)));
    } else {
        assert(ms.push(x).drop_first() =~= ms.drop_first().push(x));
        lemma_batch_items_snoc(ms.drop_first(), x);
        assert(batch_items_spec(ms.push(x)) =~= batch_items_spec(ms) + (spec_u32_to_le_bytes(
            encode_spec(x).len() as u32,
        ) + encode_spec(x)));
    }
}

/// Encodes `events` as a batch.
pub fn serialize_batch(events: &[NostrEvent]) -> (r: Vec<u8>)
    requires
        events@.len() <= u32::MAX,
        forall|i: int| 0 <= i < events@.len() ==> packable(&#[trigger] events@[i]),
        forall|i: int| 0 <= i < events@.len() ==> encode_spec((#[trigger] events@[i])@).len() <= u32::MAX,
    ensures
        r@ == batch_spec(models(events@)),
{
    let ghost ms = models(events@);
    let mut buf: Vec<u8> = Vec::new();
    let count = u32_to_le_bytes(events.len() as u32);
    buf.extend_from_slice(count.as_slice());
    let ghost base = buf@;
    let mut i: usize = 0;
    while i < events.len()
        invariant
            i <= events@.len(),
            ms == models(events@),
            base == spec_u32_to_le_bytes(events@.len() as u32),
            forall|k: int| 0 <= k < events@.len() ==> packable(&#[trigger] events@[k]),
            forall|k: int| 0 <= k < events@.len() ==> encode_spec((#[trigger] events@[k])@).len() <= u32::MAX,
            buf@ == base + batch_items_spec(ms.take(i as int)),
        decreases events@.len() - i,
    {
        let mut record: Vec<u8> = Vec::new();
        serialize(&events[i], &mut record);
        assert(record@ =~= encode_spec(ms[i as int]));
        let ghost before = buf@;
        let len = u32_to_le_bytes(record.len() as u32);
        buf.extend_from_slice(len.as_slice());
        buf.extend_from_slice(record.as_slice());
        proof {
            assert(ms.take(i + 1) =~= ms.take(i as int).push(ms[i as int]));
            lemma_batch_items_snoc(ms.take(i as int), ms[i as int]);
            assert(buf@ =~= base + batch_items_spec(ms.take(i + 1)));
        }
        i = i + 1;
    }
    assert(ms.take(i as int) =~= ms);
    assert(ms.len() == events@.len());
    buf
}

/// Decodes a batch. Any malformed record fails the whole batch.
#[verifier::rlimit(40)]
pub fn deserialize_batch(data: &[u8]) -> (r: Result<Vec<NostrEvent>, DannyPackError>)
    ensures
        match (r, parse_batch(data@)) {
            (Ok(es), Ok(ms)) => models(es@) == ms,
            (Err(e), Err(se)) => e == se,
            _ => false,
        },
{
    let len = data.len();
    if len < 4 {
        return Err(DannyPackError::TooShort);
    }
    let count = u32_from_le_bytes(&data[0..4]);
    let ghost whole = data@.subrange(4, len as int);
    assert(parse_batch(data@) == parse_batch_items(whole, count as nat));
    let mut events: Vec<NostrEvent> = Vec::new();
    let mut p: usize = 4;
    let mut i: u32 = 0;
    while i < count
        invariant
            4 <= p <= len == data@.len(),
            i <= count,
            whole == data@.subrange(4, len as int),
            parse_batch(data@) == parse_batch_items(whole, count as nat),
            parse_batch_items(whole, count as nat) == prepend_models(
                models(events@),
                parse_batch_items(data@.subrange(p as int, len as int), (count - i) as nat),
            ),
        decreases count - i,
    {
        let ghost d = data@.subrange(p as int, len as int);
        let ghost acc = models(events@);
        if len - p < 4 {
            assert(parse_batch_items(d, (count - i) as nat) == Err::<Seq<EventModel>, DannyPackError>(
                DannyPackError::TooShort,
            ));
            return Err(DannyPackError::TooShort);
        }
        let n = u32_from_le_bytes(&data[p..p + 4]);
        assert(data@.subrange(p as int, p + 4) =~= d.subrange(0, 4));
        if n as usize > len - p - 4 {
            assert(parse_batch_items(d, (count - i) as nat) == Err::<Seq<EventModel>, DannyPackError>(
                DannyPackError::TooShort,
            ));
            return Err(DannyPackError::TooShort);
        }
        let start = p + 4;
        let end = start + n as usize;
        let record = &data[start..end];
        assert(record@ =~= d.subrange(4, 4 + n));
        match deserialize(record) {
            Ok(e) => {
                let ghost ev = e@;
                events.push(e);
                proof {
                    assert(models(events@) =~= acc.push(ev));
                    assert(d.subrange(4 + n, d.len() as int) =~= data@.subrange(end as int, len as int));
                    match parse_batch_items(data@.subrange(end as int, len as int), (count - i - 1) as nat) {
                        Ok(rest) => {
                            assert(acc + (seq![ev] + rest) =~= acc.push(ev) + rest);
                        },
                        Err(_) => {},
                    }
                }
                p = end;
                i = i + 1;
            },
            Err(e) => return Err(e),
        }
    }
    assert(models(events@) + Seq::<EventModel>::empty() =~= models(events@));
    Ok(events)
}

/// A record the compact format can hold: fields of their fixed sizes, at most
/// 255 values per tag, and every length within 64 bits.
pub open spec fn representable(m: EventModel) -> bool {
    &&& m.id.len() == 32
    &&& m.pubkey.len() == 32
    &&& m.sig.len() == 64
    &&& m.tags.len() <= u64::MAX
    &&& tags_spec(m.tags).len() <= u64::MAX
    &&& encode_utf8(m.content).len() <= u64::MAX
    &&& forall|i: int| 0 <= i < m.tags.len() ==> (#[trigger] m.tags[i]).len() <= MAX_TAG_VALUES
    &&& forall|i: int, j: int|
        0 <= i < m.tags.len() && 0 <= j < m.tags[i].len() ==> encode_utf8(#[trigger] m.tags[i][j]).len()
            <= u64::MAX
}

proof fn lemma_values_roundtrip(vals: Seq<Seq<char>>, rest: Seq<u8>)
    requires
        forall|j: int| 0 <= j < vals.len() ==> encode_utf8(#[trigger] vals[j]).len() <= u64::MAX,
    ensures
        parse_values(values_spec(vals) + rest, vals.len()) == Ok::<(Seq<Seq<char>>, nat), DannyPackError>(
            (vals, values_spec(vals).len()),
        ),
    decreases vals.len(),
{
    if vals.len() == 0 {
        assert(vals =~= Seq::<Seq<char>>::empty());
    } else {
        let tail = vals.drop_first();
        let d = values_spec(vals) + rest;
        let r = value_run(vals[0]);
        assert(d =~= r + (values_spec(tail) + rest));
        lemma_run_roundtrip(vals[0], values_spec(tail) + rest);
        assert(d.subrange(r.len() as int, d.len() as int) =~= values_spec(tail) + rest);
        assert forall|j: int| 0 <= j < tail.len() implies encode_utf8(#[trigger] tail[j]).len() <= u64::MAX by {
            assert(tail[j] == vals[j + 1]);
        }
        lemma_values_roundtrip(tail, rest);
        assert(seq![vals[0]] + tail =~= vals);
    }
}

proof fn lemma_tag_roundtrip(tag: Seq<Seq<char>>, rest: Seq<u8>)
    requires
        tag.len() <= MAX_TAG_VALUES,
        forall|j: int| 0 <= j < tag.len() ==> encode_utf8(#[trigger] tag[j]).len() <= u64::MAX,
    ensures
        parse_tag(tag_spec(tag) + rest) == Ok::<(Seq<Seq<char>>, nat), DannyPackError>(
            (tag, tag_spec(tag).len()),
        ),
{
    let d = tag_spec(tag) + rest;
    assert(d[0] == tag.len() as u8);
    assert(d.drop_first() =~= values_spec(tag) + rest);
    lemma_values_roundtrip(tag, rest);
}

proof fn lemma_tag_list_roundtrip(tags: Seq<Seq<Seq<char>>>, rest: Seq<u8>)
    requires
        forall|i: int| 0 <= i < tags.len() ==> (#[trigger] tags[i]).len() <= MAX_TAG_VALUES,
        forall|i: int, j: int|
            0 <= i < tags.len() && 0 <= j < tags[i].len() ==> encode_utf8(#[trigger] tags[i][j]).len()
                <= u64::MAX,
    ensures
        parse_tag_list(tag_list_spec(tags) + rest, tags.len()) == Ok::<(Seq<Seq<Seq<char>>>, nat), DannyPackError>(
            (tags, tag_list_spec(tags).len()),
        ),
    decreases tags.len(),
{
    if tags.len() == 0 {
        assert(tags =~= Seq::<Seq<Seq<char>>>::empty());
    } else {
        let tail = tags.drop_first();
        let d = tag_list_spec(tags) + rest;
        let t = tag_spec(tags[0]);
        assert(d =~= t + (tag_list_spec(tail) + rest));
        assert forall|j: int| 0 <= j < tags[0].len() implies encode_utf8(#[trigger] tags[0][j]).len() <= u64::MAX by {
        }
        assert(tags[0].len() <= MAX_TAG_VALUES);
        lemma_tag_roundtrip(tags[0], tag_list_spec(tail) + rest);
        assert(d.subrange(t.len() as int, d.len() as int) =~= tag_list_spec(tail) + rest);
        assert forall|i: int| 0 <= i < tail.len() implies (#[trigger] tail[i]).len() <= MAX_TAG_VALUES by {
            assert(tail[i] == tags[i + 1]);
        }
        assert forall|i: int, j: int|
            0 <= i < tail.len() && 0 <= j < tail[i].len() implies encode_utf8(#[trigger] tail[i][j]).len()
                <= u64::MAX by {
            assert(tail[i] == tags[i + 1]);
        }
        lemma_tag_list_roundtrip(tail, rest);
        assert(seq![tags[0]] + tail =~= tags);
    }
}

proof fn lemma_tags_section_roundtrip(tags: Seq<Seq<Seq<char>>>)
    requires
        tags.len() <= u64::MAX,
        forall|i: int| 0 <= i < tags.len() ==> (#[trigger] tags[i]).len() <= MAX_TAG_VALUES,
        forall|i: int, j: int|
            0 <= i < tags.len() && 0 <= j < tags[i].len() ==> encode_utf8(#[trigger] tags[i][j]).len()
                <= u64::MAX,
    ensures
        parse_tags_section(tags_spec(tags)) == Ok::<Seq<Seq<Seq<char>>>, DannyPackError>(tags),
{
    let d = tags_spec(tags);
    let list = tag_list_spec(tags);
    lemma_varint_len_bound(tags.len(), MAX_VARINT_LEN as nat);
    lemma_varint_roundtrip(tags.len(), list, MAX_VARINT_LEN as nat);
    let n = varint_spec(tags.len()).len();
    assert(d.subrange(n as int, d.len() as int) =~= list + Seq::<u8>::empty());
    lemma_tag_list_roundtrip(tags, Seq::empty());
}

/// Decoding the encoding of a representable record gives back that record,
/// having read exactly the encoding.
pub proof fn lemma_record_roundtrip(m: EventModel)
    requires
        representable(m),
    ensures
        parse_record(encode_spec(m)) == Ok::<(EventModel, nat), DannyPackError>((m, encode_spec(m).len())),
{
    lemma_auto_spec_u64_to_from_le_bytes();
    lemma_auto_spec_u16_to_from_le_bytes();
    let d = encode_spec(m);
    let t = tags_spec(m.tags);
    let tl = t.len();
    let run = value_run(m.content);
    let fx = fixed_spec(m);
    assert(fx.len() == FIXED_SIZE);
    lemma_varint_len_bound(tl, MAX_VARINT_LEN as nat);
    let n = varint_spec(tl).len();
    assert(d.subrange(FIXED_SIZE as int, d.len() as int) =~= varint_spec(tl) + (t + run));
    lemma_varint_roundtrip(tl, t + run, MAX_VARINT_LEN as nat);
    let ts = FIXED_SIZE + n;
    let te = ts + tl;
    assert(d.subrange(ts as int, te as int) =~= t);
    lemma_tags_section_roundtrip(m.tags);
    assert(d.subrange(te as int, d.len() as int) =~= run + Seq::<u8>::empty());
    lemma_run_roundtrip(m.content, Seq::empty());
    let c = m.created_at;
    assert((c as u64) as i64 == c) by (bit_vector);
    assert(d.subrange(0, 32) =~= m.id);
    assert(d.subrange(32, 64) =~= m.pubkey);
    assert(d.subrange(64, 128) =~= m.sig);
    assert(d.subrange(128, 136) =~= spec_u64_to_le_bytes(c as u64));
    assert(d.subrange(136, 138) =~= spec_u16_to_le_bytes(m.kind));
    assert(fixed_model(d, m.tags, m.content) == m);
}

/// A successful record read depends only on the bytes it consumed.
pub proof fn lemma_record_extend(d: Seq<u8>, q: Seq<u8>)
    requires
        parse_record(d) is Ok,
    ensures
        parse_record(d + q) == parse_record(d),
        parse_record(d)->Ok_0.1 <= d.len(),
{
    let dq = d + q;
    let a = d.subrange(FIXED_SIZE as int, d.len() as int);
    assert(dq.subrange(FIXED_SIZE as int, dq.len() as int) =~= a + q);
    lemma_varint_extend(a, q, MAX_VARINT_LEN as nat);
    let (tl, n) = parse_varint(a)->Ok_0;
    let ts = FIXED_SIZE + n;
    let te = ts + tl;
    assert(dq.subrange(ts as int, te as int) =~= d.subrange(ts as int, te as int));
    let b = d.subrange(te as int, d.len() as int);
    assert(dq.subrange(te as int, dq.len() as int) =~= b + q);
    lemma_run_extend(b, q);
    assert(dq.subrange(0, 32) =~= d.subrange(0, 32));
    assert(dq.subrange(32, 64) =~= d.subrange(32, 64));
    assert(dq.subrange(64, 128) =~= d.subrange(64, 128));
    assert(dq.subrange(128, 136) =~= d.subrange(128, 136));
    assert(dq.subrange(136, 138) =~= d.subrange(136, 138));
}

/// Every strict prefix of an encoded record is rejected by the decoder:
/// a truncated record never decodes.
#[verifier::rlimit(60)]
pub proof fn lemma_truncated_record_rejected(m: EventModel, k: nat)
    requires
        representable(m),
        k < encode_spec(m).len(),
    ensures
        parse_record(encode_spec(m).subrange(0, k as int)) is Err,
{
    let e = encode_spec(m);
    let p = e.subrange(0, k as int);
    let q = e.subrange(k as int, e.len() as int);
    lemma_record_roundtrip(m);
    assert(p + q =~= e);
    if parse_record(p) is Ok {
        lemma_record_extend(p, q);
        assert(parse_record(e) == parse_record(p));
    }
}

/// Records that a batch can hold: each representable, each encoding within 32 bits.
pub open spec fn batchable(ms: Seq<EventModel>) -> bool {
    forall|i: int| 0 <= i < ms.len() ==> representable(#[trigger] ms[i]) && encode_spec(ms[i]).len() <= u32::MAX
}

#[verifier::rlimit(60)]
proof fn lemma_batch_items_roundtrip(ms: Seq<EventModel>)
    requires
        batchable(ms),
    ensures
        parse_batch_items(batch_items_spec(ms), ms.len()) == Ok::<Seq<EventModel>, DannyPackError>(ms),
    decreases ms.len(),
{
    lemma_auto_spec_u32_to_from_le_bytes();
    if ms.len() == 0 {
        assert(ms =~= Seq::<EventModel>::empty());
    } else {
        let tail = ms.drop_first();
        let rec = encode_spec(ms[0]);
        let d = batch_items_spec(ms);
        let pre = spec_u32_to_le_bytes(rec.len() as u32);
        assert(d =~= pre + rec + batch_items_spec(tail));
        assert(d.subrange(0, 4) =~= pre);
        assert(representable(ms[0]) && rec.len() <= u32::MAX);
        assert(d.subrange(4, 4 + rec.len() as int) =~= rec);
        lemma_record_roundtrip(ms[0]);
        assert(d.subrange(4 + rec.len() as int, d.len() as int) =~= batch_items_spec(tail));
        assert forall|i: int| 0 <= i < tail.len() implies representable(#[trigger] tail[i])
            && encode_spec(tail[i]).len() <= u32::MAX by {
            assert(tail[i] == ms[i + 1]);
        }
        lemma_batch_items_roundtrip(tail);
        assert(seq![ms[0]] + tail =~= ms);
    }
}

/// Decoding an encoded batch gives back its records, in their order.
pub proof fn lemma_batch_roundtrip(ms: Seq<EventModel>)
    requires
        ms.len() <= u32::MAX,
        batchable(ms),
    ensures
        parse_batch(batch_spec(ms)) == Ok::<Seq<EventModel>, DannyPackError>(ms),
{
    lemma_auto_spec_u32_to_from_le_bytes();
    let d = batch_spec(ms);
    assert(d.subrange(0, 4) =~= spec_u32_to_le_bytes(ms.len() as u32));
    assert(d.subrange(4, d.len() as int) =~= batch_items_spec(ms));
    lemma_batch_items_roundtrip(ms);
}

/// Size of a tag's values if every one were stored literally.
pub open spec fn literal_values_len(vals: Seq<Seq<char>>) -> nat
    decreases vals.len(),
{
    if vals.len() == 0 {
        0
    } else {
        literal_values_len(vals.drop_last()) + literal_run(encode_utf8(vals.last())).len()
    }
}

/// Size of the tag section if every value were stored literally.
pub open spec fn literal_tag_list_len(tags: Seq<Seq<Seq<char>>>) -> nat
    decreases tags.len(),
{
    if tags.len() == 0 {
        0
    } else {
        literal_tag_list_len(tags.drop_last()) + 1 + literal_values_len(tags.last())
    }
}

pub open spec fn literal_tags_len(tags: Seq<Seq<Seq<char>>>) -> nat {
    varint_spec(tags.len()).len() + literal_tag_list_len(tags)
}

proof fn lemma_values_within_literal(vals: Seq<Seq<char>>)
    ensures
        values_spec(vals).len() <= literal_values_len(vals),
    decreases vals.len(),
{
    if vals.len() > 0 {
        let init = vals.drop_last();
        lemma_values_within_literal(init);
        lemma_values_snoc(init, vals.last());
        assert(init.push(vals.last()) =~= vals);
        lemma_hex_run_shorter(encode_utf8(vals.last()));
    }
}

proof fn lemma_tag_list_within_literal(tags: Seq<Seq<Seq<char>>>)
    ensures
        tag_list_spec(tags).len() <= literal_tag_list_len(tags),
    decreases tags.len(),
{
    if tags.len() > 0 {
        let init = tags.drop_last();
        lemma_tag_list_within_literal(init);
        lemma_tag_list_snoc(init, tags.last());
        assert(init.push(tags.last()) =~= tags);
        lemma_values_within_literal(tags.last());
    }
}

/// The tag section is never longer than its size with every value literal:
/// hex compression only shrinks.
pub proof fn lemma_tags_within_literal(tags: Seq<Seq<Seq<char>>>)
    ensures
        tags_spec(tags).len() <= literal_tags_len(tags),
{
    lemma_tag_list_within_literal(tags);
}

/// Upper bound of the tag section's size, every value counted literally
/// (saturating at `usize::MAX`).
pub fn calc_max_tags_size(tags: &Vec<Vec<String>>) -> (r: usize)
    ensures
        r == saturate(literal_tags_len(tags.deep_view())),
{
    let ghost all = tags.deep_view();
    let mut size = crate::wire::varint_size(tags.len() as u64);
    let mut i: usize = 0;
    while i < tags.len()
        invariant
            i <= tags@.len(),
            all == tags.deep_view(),
            size == saturate(varint_spec(tags@.len() as nat).len() + literal_tag_list_len(all.take(i as int))),
        decreases tags@.len() - i,
    {
        let tag = &tags[i];
        let ghost tv = tag.deep_view();
        let mut t: usize = 1;
        let mut j: usize = 0;
        proof {
            assert(tv.take(0) =~= Seq::<Seq<char>>::empty());
        }
        while j < tag.len()
            invariant
                j <= tag@.len(),
                tv == tag.deep_view(),
                t == saturate(1 + literal_values_len(tv.take(j as int))),
            decreases tag@.len() - j,
        {
            let len = tag[j].as_str().as_bytes().len();
            let header = if len < 127 { 1 } else { 1 + crate::wire::varint_size(len as u64) };
            t = t.saturating_add(header).saturating_add(len);
            proof {
                assert(tv.take(j + 1).drop_last() =~= tv.take(j as int));
                assert(tv[j as int] == tag@[j as int]@);
            }
            j = j + 1;
        }
        proof {
            assert(tv.take(j as int) =~= tv);
            assert(all[i as int] == tv);
            assert(all.take(i + 1).drop_last() =~= all.take(i as int));
        }
        size = size.saturating_add(t);
        i = i + 1;
    }
    assert(all.take(i as int) =~= all);
    size
}

} // verus!
