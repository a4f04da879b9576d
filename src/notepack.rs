//! Notepack: the compact binary note format of the `notepack` crate, and a
//! length-prefixed batch of such notes.

use vstd::prelude::*;
use vstd::bytes::{lemma_auto_spec_u32_to_from_le_bytes, spec_u32_from_le_bytes, spec_u32_to_le_bytes, u32_from_le_bytes, u32_to_le_bytes};
use crate::event::{clone_tags, NostrEvent};
use crate::hexstr::{hex_encode, hex_text, is_hex_text, lemma_hex_text_roundtrip};

verus! {

#[verifier::external_type_specification]
#[verifier::external_body]
pub struct ExNotepackCrateError(::notepack::Error);

/// Errors of the notepack adapter.
#[derive(Debug)]
pub enum NotepackError {
    /// The note itself does not parse.
    Pack(::notepack::Error),
    /// The named part of a batch is missing.
    MissingField(&'static str),
    /// The note's kind does not fit in 16 bits.
    KindOutOfRange(u64),
}

/// One tag element as notepack stores it: text, or the bytes of lowercase hex text.
pub enum TagElem {
    Text(String),
    Bytes(Vec<u8>),
}

/// The fields of a parsed note.
pub struct NoteParts {
    pub id: [u8; 32],
    pub pubkey: [u8; 32],
    pub sig: [u8; 64],
    pub created_at: u64,
    pub kind: u64,
    pub content: String,
    pub tags: Vec<Vec<TagElem>>,
}

/// Text of a tag element: bytes stand for their lowercase hex.
pub open spec fn elem_text(e: TagElem) -> Seq<char> {
    match e {
        TagElem::Text(s) => s@,
        TagElem::Bytes(b) => hex_text(b@),
    }
}

/// The packed note that `notepack::pack_note` writes for these fields.
pub uninterp spec fn notepack_encoding(
    id: Seq<char>,
    pubkey: Seq<char>,
    created_at: u64,
    kind: u64,
    tags: Seq<Seq<Seq<char>>>,
    content: Seq<char>,
    sig: Seq<char>,
) -> Seq<u8>;

/// Relies on `notepack::pack_note`: it fails only when the id, pubkey or sig is
/// not hex text, and the bytes it writes depend on the note alone.
#[verifier::external_body]
fn pack_note(
    id: String,
    pubkey: String,
    created_at: u64,
    kind: u64,
    tags: Vec<Vec<String>>,
    content: String,
    sig: String,
) -> (r: Result<Vec<u8>, ::notepack::Error>)
    ensures
        is_hex_text(id@) && is_hex_text(pubkey@) && is_hex_text(sig@) ==> r is Ok,
        r is Ok ==> r->Ok_0@ == notepack_encoding(
            id@,
            pubkey@,
            created_at,
            kind,
            tags.deep_view(),
            content@,
            sig@,
        ),
{
    ::notepack::pack_note(&::notepack::NoteBuf { id, pubkey, created_at, kind, tags, content, sig })
}

/// Relies on `notepack::NoteParser::into_note` and the tag cursor it returns:
/// the fields of a packed note, each tag element as text or raw bytes.
#[verifier::external_body]
fn parse_note(data: &[u8]) -> (r: Result<NoteParts, ::notepack::Error>) {
    let note = ::notepack::NoteParser::new(data).into_note()?;
    let mut cursor = note.tags.clone();
    let mut tags = Vec::new();
    while let Some(elems) = cursor.next_tag()? {
        let mut tag = Vec::new();
        for elem in elems {
            tag.push(match elem? {
                ::notepack::StringType::Str(s) => TagElem::Text(s.to_string()),
                ::notepack::StringType::Bytes(b) => TagElem::Bytes(b.to_vec()),
            });
        }
        tags.push(tag);
    }
    let (id, pubkey, sig) = (*note.id, *note.pubkey, *note.sig);
    Ok(NoteParts { id, pubkey, sig, created_at: note.created_at, kind: note.kind, content: note.content.to_string(), tags })
}

/// The notepack encoding of `event`.
pub open spec fn notepack_of(event: NostrEvent) -> Seq<u8> {
    notepack_encoding(
        hex_text(event.id@),
        hex_text(event.pubkey@),
        event.created_at as u64,
        event.kind as u64,
        event.tags.deep_view(),
        event.content@,
        hex_text(event.sig@),
    )
}

/// Encodes `event` with notepack.
pub fn serialize(event: &NostrEvent) -> (r: Vec<u8>)
    ensures
        r@ == notepack_of(*event),
{
    proof {
        lemma_hex_text_roundtrip(event.id@);
        lemma_hex_text_roundtrip(event.pubkey@);
        lemma_hex_text_roundtrip(event.sig@);
    }
    let tags = clone_tags(&event.tags);
    match pack_note(
        event.id_hex(),
        event.pubkey_hex(),
        event.created_at as u64,
        event.kind as u64,
        tags,
        event.content.clone(),
        event.sig_hex(),
    ) {
        Ok(bytes) => bytes,
        Err(_) => {
            assert(false);
            Vec::new()
        },
    }
}

/// The text of each element of a parsed tag.
fn tag_texts(tag: &Vec<TagElem>) -> (r: Vec<String>)
    ensures
        r@.len() == tag@.len(),
        forall|j: int| 0 <= j < tag@.len() ==> (#[trigger] r@[j])@ == elem_text(tag@[j]),
{
    let mut out: Vec<String> = Vec::new();
    let mut j: usize = 0;
    while j < tag.len()
        invariant
            j <= tag@.len(),
            out@.len() == j,
            forall|k: int| 0 <= k < j ==> (#[trigger] out@[k])@ == elem_text(tag@[k]),
        decreases tag@.len() - j,
    {
        let s = match &tag[j] {
            TagElem::Text(s) => s.clone(),
            TagElem::Bytes(b) => hex_encode(b.as_slice()),
        };
        out.push(s);
        j = j + 1;
    }
    out
}

/// The event that the fields of a parsed note describe: bytes in tags stand
/// for their lowercase hex; a kind beyond 16 bits is rejected.
pub fn note_from_parts(parts: NoteParts) -> (r: Result<NostrEvent, NotepackError>)
    ensures
        parts.kind > u16::MAX <==> r is Err,
        r is Err ==> r == Err::<NostrEvent, NotepackError>(NotepackError::KindOutOfRange(parts.kind)),
        r is Ok ==> ({
            let e = r->Ok_0;
            &&& e.id == parts.id
            &&& e.pubkey == parts.pubkey
            &&& e.sig == parts.sig
            &&& e.created_at == parts.created_at as i64
            &&& e.kind == parts.kind
            &&& e.content@ == parts.content@
            &&& e.tags@.len() == parts.tags@.len()
            &&& forall|i: int, j: int|
                0 <= i < parts.tags@.len() && 0 <= j < parts.tags@[i]@.len() ==> (#[trigger] e.tags@[i]@[j])@
                    == elem_text(parts.tags@[i]@[j])
            &&& forall|i: int| 0 <= i < parts.tags@.len() ==> (#[trigger] e.tags@[i])@.len() == parts.tags@[i]@.len()
        }),
{
    if parts.kind > u16::MAX as u64 {
        return Err(NotepackError::KindOutOfRange(parts.kind));
    }
    let mut tags: Vec<Vec<String>> = Vec::new();
    let mut i: usize = 0;
    while i < parts.tags.len()
        invariant
            i <= parts.tags@.len(),
            tags@.len() == i,
            forall|k: int, j: int|
                0 <= k < i && 0 <= j < parts.tags@[k]@.len() ==> (#[trigger] tags@[k]@[j])@ == elem_text(
                    parts.tags@[k]@[j],
                ),
            forall|k: int| 0 <= k < i ==> (#[trigger] tags@[k])@.len() == parts.tags@[k]@.len(),
        decreases parts.tags@.len() - i,
    {
        let t = tag_texts(&parts.tags[i]);
        tags.push(t);
        i = i + 1;
    }
    Ok(NostrEvent {
        id: parts.id,
        pubkey: parts.pubkey,
        created_at: parts.created_at as i64,
        kind: parts.kind as u16,
        tags,
        content: parts.content,
        sig: parts.sig,
    })
}

/// Decodes a notepack note into an event.
pub fn deserialize(data: &[u8]) -> (r: Result<NostrEvent, NotepackError>) {
    match parse_note(data) {
        Ok(parts) => note_from_parts(parts),
        Err(e) => Err(NotepackError::Pack(e)),
    }
}

/// Records framed one after the other, each behind its u32 length.
pub open spec fn frames_spec(records: Seq<Seq<u8>>) -> Seq<u8>
    decreases records.len(),
{
    if records.len() == 0 {
        Seq::empty()
    } else {
        spec_u32_to_le_bytes(records[0].len() as u32) + records[0] + frames_spec(records.drop_first())
    }
}

proof fn lemma_frames_snoc(records: Seq<Seq<u8>>, x: Seq<u8>)
    ensures
        frames_spec(records.push(x)) == frames_spec(records) + (spec_u32_to_le_bytes(x.len() as u32) + x),
    decreases records.len(),
{
    if records.len() == 0 {
        assert(records.push(x).drop_first() =~= Seq::<Seq<u8>>::empty());
        assert(records.push(x)[0] == x);
        assert(frames_spec(records.push(x).drop_first()) == Seq::<u8>::empty());
        assert(frames_spec(records) == Seq::<u8>::empty());
        assert(frames_spec(records.push(x)) =~= frames_spec(records) + (spec_u32_to_le_bytes(
            x.len() as u32,
        ) + x));
    } else {
        assert(records.push(x).drop_first() =~= records.drop_first().push(x));
        lemma_frames_snoc(records.drop_first(), x);
        assert(frames_spec(records.push(x)) =~= frames_spec(records) + (spec_u32_to_le_bytes(
            x.len() as u32,
        ) + x));
    }
}

/// The notepack batch of `events`: the count, then each note behind its length.
pub open spec fn notepack_batch_of(events: Seq<NostrEvent>) -> Seq<u8> {
    spec_u32_to_le_bytes(events.len() as u32) + frames_spec(events.map_values(|e: NostrEvent| notepack_of(e)))
}

/// Encodes `events` as a notepack batch: `[count: u32][len: u32][note]...`.
pub fn serialize_batch(events: &[NostrEvent]) -> (r: Vec<u8>)
    requires
        events@.len() <= u32::MAX,
        forall|i: int| 0 <= i < events@.len() ==> notepack_of(#[trigger] events@[i]).len() <= u32::MAX,
    ensures
        r@ == notepack_batch_of(events@),
{
    let ghost recs = events@.map_values(|e: NostrEvent| notepack_of(e));
    let mut buf: Vec<u8> = Vec::new();
    let count = u32_to_le_bytes(events.len() as u32);
    buf.extend_from_slice(count.as_slice());
    let ghost base = buf@;
    let mut i: usize = 0;
    while i < events.len()
        invariant
            i <= events@.len(),
            recs == events@.map_values(|e: NostrEvent| notepack_of(e)),
            base == spec_u32_to_le_bytes(events@.len() as u32),
            forall|k: int| 0 <= k < events@.len() ==> notepack_of(#[trigger] events@[k]).len() <= u32::MAX,
            buf@ == base + frames_spec(recs.take(i as int)),
        decreases events@.len() - i,
    {
        let note = serialize(&events[i]);
        let len = u32_to_le_bytes(note.len() as u32);
        buf.extend_from_slice(len.as_slice());
        buf.extend_from_slice(note.as_slice());
        proof {
            assert(note@ == recs[i as int]);
            assert(recs.take(i + 1) =~= recs.take(i as int).push(recs[i as int]));
            lemma_frames_snoc(recs.take(i as int), recs[i as int]);
            assert(buf@ =~= base + frames_spec(recs.take(i + 1)));
        }
        i = i + 1;
    }
    assert(recs.take(i as int) =~= recs);
    buf
}

/// Splits a batch into its notes: `Ok` with the note slices' bounds when the
/// framing is complete, else the name of the first missing part.
pub open spec fn batch_frames(d: Seq<u8>) -> Result<Seq<Seq<u8>>, &'static str> {
    if d.len() < 4 {
        Err("batch header")
    } else {
        frames_from(d.subrange(4, d.len() as int), spec_u32_from_le_bytes(d.subrange(0, 4)) as nat)
    }
}

pub open spec fn frames_from(d: Seq<u8>, k: nat) -> Result<Seq<Seq<u8>>, &'static str>
    decreases k,
{
    if k == 0 {
        Ok(Seq::empty())
    } else if d.len() < 4 {
        Err("event length")
    } else {
        let n = spec_u32_from_le_bytes(d.subrange(0, 4)) as int;
        if n > d.len() - 4 {
            Err("event data")
        } else {
            match frames_from(d.subrange(4 + n, d.len() as int), (k - 1) as nat) {
                Ok(rest) => Ok(seq![d.subrange(4, 4 + n)] + rest),
                Err(e) => Err(e),
            }
        }
    }
}

/// Decodes a notepack batch. A framing error names the missing part; a note
/// that does not decode fails the whole batch.
pub fn deserialize_batch(data: &[u8]) -> (r: Result<Vec<NostrEvent>, NotepackError>)
    ensures
        r is Ok ==> batch_frames(data@) is Ok && r->Ok_0@.len() == batch_frames(data@)->Ok_0.len(),
        batch_frames(data@) is Err ==> r is Err,
        data@.len() < 4 ==> r == Err::<Vec<NostrEvent>, NotepackError>(NotepackError::MissingField("batch header")),
{
    let len = data.len();
    if len < 4 {
        return Err(NotepackError::MissingField("batch header"));
    }
    let count = u32_from_le_bytes(&data[0..4]);
    let mut events: Vec<NostrEvent> = Vec::new();
    let mut p: usize = 4;
    let mut i: u32 = 0;
    while i < count
        invariant
            4 <= p <= len == data@.len(),
            i <= count,
            events@.len() == i,
            batch_frames(data@) is Ok <==> frames_from(data@.subrange(p as int, len as int), (count - i) as nat) is Ok,
            frames_from(data@.subrange(p as int, len as int), (count - i) as nat) is Ok ==> batch_frames(data@)->Ok_0.len()
                == i + frames_from(data@.subrange(p as int, len as int), (count - i) as nat)->Ok_0.len(),
        decreases count - i,
    {
        let ghost d = data@.subrange(p as int, len as int);
        if len - p < 4 {
            return Err(NotepackError::MissingField("event length"));
        }
        let n = u32_from_le_bytes(&data[p..p + 4]);
        assert(data@.subrange(p as int, p + 4) =~= d.subrange(0, 4));
        if n as usize > len - p - 4 {
            return Err(NotepackError::MissingField("event data"));
        }
        let start = p + 4;
        let end = start + n as usize;
        match deserialize(&data[start..end]) {
            Ok(e) => {
                events.push(e);
                proof {
                    assert(d.subrange(4 + n, d.len() as int) =~= data@.subrange(end as int, len as int));
                }
                p = end;
                i = i + 1;
            },
            Err(e) => return Err(e),
        }
    }
    Ok(events)
}

proof fn lemma_frames_roundtrip(records: Seq<Seq<u8>>)
    requires
        forall|i: int| 0 <= i < records.len() ==> (#[trigger] records[i]).len() <= u32::MAX,
    ensures
        frames_from(frames_spec(records), records.len()) == Ok::<Seq<Seq<u8>>, &'static str>(records),
    decreases records.len(),
{
    lemma_auto_spec_u32_to_from_le_bytes();
    if records.len() == 0 {
        assert(records =~= Seq::<Seq<u8>>::empty());
    } else {
        let d = frames_spec(records);
        let r0 = records[0];
        let tail = records.drop_first();
        assert(d.subrange(0, 4) =~= spec_u32_to_le_bytes(r0.len() as u32));
        assert(d.subrange(4, 4 + r0.len() as int) =~= r0);
        assert(d.subrange(4 + r0.len() as int, d.len() as int) =~= frames_spec(tail));
        assert forall|i: int| 0 <= i < tail.len() implies (#[trigger] tail[i]).len() <= u32::MAX by {
            assert(tail[i] == records[i + 1]);
        }
        lemma_frames_roundtrip(tail);
        assert(seq![r0] + tail =~= records);
    }
}

/// Splitting an encoded notepack batch gives back each note's bytes, in order.
pub proof fn lemma_notepack_batch_frames(events: Seq<NostrEvent>)
    requires
        events.len() <= u32::MAX,
        forall|i: int| 0 <= i < events.len() ==> notepack_of(#[trigger] events[i]).len() <= u32::MAX,
    ensures
        batch_frames(notepack_batch_of(events)) == Ok::<Seq<Seq<u8>>, &'static str>(
            events.map_values(|e: NostrEvent| notepack_of(e)),
        ),
{
    lemma_auto_spec_u32_to_from_le_bytes();
    let recs = events.map_values(|e: NostrEvent| notepack_of(e));
    let d = notepack_batch_of(events);
    assert(d.subrange(0, 4) =~= spec_u32_to_le_bytes(events.len() as u32));
    assert(d.subrange(4, d.len() as int) =~= frames_spec(recs));
    lemma_frames_roundtrip(recs);
}

} // verus!
