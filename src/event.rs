//! The canonical in-memory Nostr event that every wire format converts to and from.

use vstd::prelude::*;
use vstd::utf8::encode_utf8;
use crate::hexstr::{
    hex_bytes, hex_decode, hex_encode, hex_text, invalid_string_length, is_hex_text,
    lemma_hex_text_roundtrip,
};

verus! {

/// A Nostr event as defined in NIP-01, with the cryptographic fields held as raw bytes.
///
/// The kind is held in 16 bits: that is the width every wire format here stores,
/// so no value can be cut short on the way out.
#[derive(Debug, Clone, PartialEq, Eq)]
pub struct NostrEvent {
    /// 32-byte event id (SHA-256 hash)
    pub id: [u8; 32],
    /// 32-byte public key
    pub pubkey: [u8; 32],
    /// Unix timestamp in seconds
    pub created_at: i64,
    /// Event kind (0-65535)
    pub kind: u16,
    /// Tags: each tag is a list of strings
    pub tags: Vec<Vec<String>>,
    /// Event content (arbitrary string)
    pub content: String,
    /// 64-byte Schnorr signature
    pub sig: [u8; 64],
}

/// What an event is, as mathematical values.
pub struct EventModel {
    pub id: Seq<u8>,
    pub pubkey: Seq<u8>,
    pub created_at: i64,
    pub kind: u16,
    pub tags: Seq<Seq<Seq<char>>>,
    pub content: Seq<char>,
    pub sig: Seq<u8>,
}

impl View for NostrEvent {
    type V = EventModel;

    open spec fn view(&self) -> EventModel {
        EventModel {
            id: self.id@,
            pubkey: self.pubkey@,
            created_at: self.created_at,
            kind: self.kind,
            tags: self.tags.deep_view(),
            content: self.content@,
            sig: self.sig@,
        }
    }
}

/// Fixed part of the JSON size estimate: object punctuation, the three hex
/// fields (64 + 64 + 128 digits), the timestamp (10) and the kind (5).
pub const JSON_BASE_ESTIMATE: usize = 371;

/// Estimated JSON size of one tag: brackets and separators, plus each value
/// with its quotes and comma.
pub open spec fn tag_json_estimate(tag: Seq<Seq<char>>) -> nat
    decreases tag.len(),
{
    if tag.len() == 0 {
        4
    } else {
        tag_json_estimate(tag.drop_last()) + encode_utf8(tag.last()).len() + 3
    }
}

pub open spec fn tags_json_estimate(tags: Seq<Seq<Seq<char>>>) -> nat
    decreases tags.len(),
{
    if tags.len() == 0 {
        0
    } else {
        tags_json_estimate(tags.drop_last()) + tag_json_estimate(tags.last())
    }
}

/// Approximate JSON size of an event: the fixed part, the content with a
/// tenth added for escapes, and the tags.
pub open spec fn json_size_estimate(m: EventModel) -> nat {
    let c = encode_utf8(m.content).len();
    JSON_BASE_ESTIMATE as nat + c + c / 10 + tags_json_estimate(m.tags)
}

pub open spec fn saturate(n: nat) -> usize {
    if n <= usize::MAX {
        n as usize
    } else {
        usize::MAX
    }
}

pub open spec fn size_category_of(size: nat) -> SizeCategory {
    if size <= 500 {
        SizeCategory::Tiny
    } else if size <= 2000 {
        SizeCategory::Small
    } else if size <= 10000 {
        SizeCategory::Medium
    } else if size <= 100000 {
        SizeCategory::Large
    } else {
        SizeCategory::Huge
    }
}

pub open spec fn tag_category_of(count: nat) -> TagCategory {
    if count == 0 {
        TagCategory::Untagged
    } else if count <= 5 {
        TagCategory::Few
    } else if count <= 20 {
        TagCategory::Moderate
    } else if count <= 100 {
        TagCategory::Many
    } else {
        TagCategory::Massive
    }
}

impl NostrEvent {
    /// Builds an event from hex-encoded id, pubkey and signature.
    pub fn from_hex(
        id: &str,
        pubkey: &str,
        created_at: i64,
        kind: u16,
        tags: Vec<Vec<String>>,
        content: String,
        sig: &str,
    ) -> (r: Result<Self, hex::FromHexError>)
        ensures
            r is Ok <==> (is_hex_text(id@) && is_hex_text(pubkey@) && is_hex_text(sig@)
                && id@.len() == 64 && pubkey@.len() == 64 && sig@.len() == 128),
            r is Ok ==> ({
                let e = r->Ok_0;
                &&& e.id@ == hex_bytes(id@)
                &&& e.pubkey@ == hex_bytes(pubkey@)
                &&& e.sig@ == hex_bytes(sig@)
                &&& e.created_at == created_at
                &&& e.kind == kind
                &&& e.tags == tags
                &&& e.content == content
            }),
    {
        let id_bytes = match hex_decode(id) {
            Ok(b) => b,
            Err(e) => return Err(e),
        };
        let pubkey_bytes = match hex_decode(pubkey) {
            Ok(b) => b,
            Err(e) => return Err(e),
        };
        let sig_bytes = match hex_decode(sig) {
            Ok(b) => b,
            Err(e) => return Err(e),
        };
        if id_bytes.len() != 32 || pubkey_bytes.len() != 32 || sig_bytes.len() != 64 {
            return Err(invalid_string_length());
        }
        let id_arr: [u8; 32] = copy_to_array(&id_bytes);
        let pubkey_arr: [u8; 32] = copy_to_array(&pubkey_bytes);
        let sig_arr: [u8; 64] = copy_to_array(&sig_bytes);
        Ok(NostrEvent { id: id_arr, pubkey: pubkey_arr, created_at, kind, tags, content, sig: sig_arr })
    }

    /// The event id as lowercase hex.
    pub fn id_hex(&self) -> (r: String)
        ensures
            r@ == hex_text(self.id@),
    {
        hex_encode(self.id.as_slice())
    }

    /// The public key as lowercase hex.
    pub fn pubkey_hex(&self) -> (r: String)
        ensures
            r@ == hex_text(self.pubkey@),
    {
        hex_encode(self.pubkey.as_slice())
    }

    /// The signature as lowercase hex.
    pub fn sig_hex(&self) -> (r: String)
        ensures
            r@ == hex_text(self.sig@),
    {
        hex_encode(self.sig.as_slice())
    }

    /// The number of tags.
    pub fn tag_count(&self) -> (r: usize)
        ensures
            r == self.tags@.len(),
    {
        self.tags.len()
    }

    /// Approximate JSON size of the event, used to put it in a size category;
    /// saturates at `usize::MAX`.
    pub fn estimated_json_size(&self) -> (r: usize)
        ensures
            r == saturate(json_size_estimate(self@)),
    {
        let c = self.content.as_str().as_bytes().len();
        let mut total = JSON_BASE_ESTIMATE.saturating_add(c).saturating_add(c / 10);
        let ghost all = self.tags.deep_view();
        proof {
            assert(all.take(0) =~= Seq::<Seq<Seq<char>>>::empty());
        }
        let mut i: usize = 0;
        while i < self.tags.len()
            invariant
                i <= self.tags@.len(),
                all == self.tags.deep_view(),
                c == encode_utf8(self.content@).len(),
                total == saturate(JSON_BASE_ESTIMATE as nat + c as nat + (c / 10) as nat + tags_json_estimate(all.take(i as int))),
            decreases self.tags@.len() - i,
        {
            let tag = &self.tags[i];
            let ghost tv = tag.deep_view();
            let mut t: usize = 4;
            let mut j: usize = 0;
            proof {
                assert(tv.take(0) =~= Seq::<Seq<char>>::empty());
            }
            while j < tag.len()
                invariant
                    j <= tag@.len(),
                    tv == tag.deep_view(),
                    t == saturate(tag_json_estimate(tv.take(j as int))),
                decreases tag@.len() - j,
            {
                let n = tag[j].as_str().as_bytes().len();
                t = t.saturating_add(n).saturating_add(3);
                proof {
                    assert(tv.take(j + 1).drop_last() =~= tv.take(j as int));
                }
                j = j + 1;
            }
            proof {
                assert(tv.take(j as int) =~= tv);
                assert(all[i as int] == tv);
                assert(all.take(i + 1).drop_last() =~= all.take(i as int));
            }
            total = total.saturating_add(t);
            i = i + 1;
        }
        proof {
            assert(all.take(i as int) =~= all);
        }
        total
    }

    /// Size category of the event, by its estimated JSON size.
    pub fn size_category(&self) -> (r: SizeCategory)
        ensures
            r == size_category_of(json_size_estimate(self@)),
    {
        let size = self.estimated_json_size();
        if size <= 500 {
            SizeCategory::Tiny
        } else if size <= 2000 {
            SizeCategory::Small
        } else if size <= 10000 {
            SizeCategory::Medium
        } else if size <= 100000 {
            SizeCategory::Large
        } else {
            SizeCategory::Huge
        }
    }

    /// Tag-count category of the event.
    pub fn tag_category(&self) -> (r: TagCategory)
        ensures
            r == tag_category_of(self.tags@.len()),
    {
        let n = self.tag_count();
        if n == 0 {
            TagCategory::Untagged
        } else if n <= 5 {
            TagCategory::Few
        } else if n <= 20 {
            TagCategory::Moderate
        } else if n <= 100 {
            TagCategory::Many
        } else {
            TagCategory::Massive
        }
    }
}

/// Copies a vector of exactly `N` bytes into an array.
fn copy_to_array<const N: usize>(v: &Vec<u8>) -> (r: [u8; N])
    requires
        v@.len() == N,
    ensures
        r@ == v@,
{
    let mut r = [0u8; N];
    let mut i: usize = 0;
    while i < N
        invariant
            v@.len() == N,
            i <= N,
            r@.len() == N,
            forall|k: int| 0 <= k < i ==> r@[k] == v@[k],
        decreases N - i,
    {
        r[i] = v[i];
        i = i + 1;
    }
    assert(r@ =~= v@);
    r
}

/// Size category of an event, by its estimated JSON size.
#[derive(Debug, Clone, Copy, PartialEq, Eq, Hash, Structural)]
pub enum SizeCategory {
    /// up to 500 bytes
    Tiny,
    /// 501 bytes to 2 KB
    Small,
    /// 2 KB to 10 KB
    Medium,
    /// 10 KB to 100 KB
    Large,
    /// over 100 KB
    Huge,
}

impl SizeCategory {
    /// Human-readable label of the category.
    pub fn label(&self) -> &'static str {
        match self {
            SizeCategory::Tiny => "tiny (<500B)",
            SizeCategory::Small => "small (500B-2KB)",
            SizeCategory::Medium => "medium (2KB-10KB)",
            SizeCategory::Large => "large (10KB-100KB)",
            SizeCategory::Huge => "huge (>100KB)",
        }
    }
}

/// Tag-count category of an event.
#[derive(Debug, Clone, Copy, PartialEq, Eq, Hash, Structural)]
pub enum TagCategory {
    /// no tags
    Untagged,
    /// 1 to 5 tags
    Few,
    /// 6 to 20 tags
    Moderate,
    /// 21 to 100 tags
    Many,
    /// over 100 tags
    Massive,
}

impl TagCategory {
    /// Human-readable label of the category.
    pub fn label(&self) -> &'static str {
        match self {
            TagCategory::Untagged => "none (0)",
            TagCategory::Few => "few (1-5)",
            TagCategory::Moderate => "moderate (6-20)",
            TagCategory::Many => "many (21-100)",
            TagCategory::Massive => "massive (100+)",
        }
    }
}

/// The NIP-01 JSON shape of an event: the cryptographic fields as hex text.
#[derive(Debug, Clone)]
pub struct NostrEventJson {
    pub id: String,
    pub pubkey: String,
    pub created_at: i64,
    pub kind: u16,
    pub tags: Vec<Vec<String>>,
    pub content: String,
    pub sig: String,
}

impl NostrEventJson {
    /// The JSON shape of `event`.
    pub fn from_event(event: &NostrEvent) -> (r: Self)
        ensures
            r.id@ == hex_text(event.id@),
            r.pubkey@ == hex_text(event.pubkey@),
            r.sig@ == hex_text(event.sig@),
            r.created_at == event.created_at,
            r.kind == event.kind,
            r.tags.deep_view() == event.tags.deep_view(),
            r.content@ == event.content@,
    {
        NostrEventJson {
            id: event.id_hex(),
            pubkey: event.pubkey_hex(),
            created_at: event.created_at,
            kind: event.kind,
            tags: clone_tags(&event.tags),
            content: event.content.clone(),
            sig: event.sig_hex(),
        }
    }

    /// The event this JSON shape describes, when its hex fields decode to the
    /// right sizes.
    pub fn into_event(self) -> (r: Result<NostrEvent, hex::FromHexError>)
        ensures
            r is Ok <==> (is_hex_text(self.id@) && is_hex_text(self.pubkey@) && is_hex_text(self.sig@)
                && self.id@.len() == 64 && self.pubkey@.len() == 64 && self.sig@.len() == 128),
            r is Ok ==> ({
                let e = r->Ok_0;
                &&& e.id@ == hex_bytes(self.id@)
                &&& e.pubkey@ == hex_bytes(self.pubkey@)
                &&& e.sig@ == hex_bytes(self.sig@)
                &&& e.created_at == self.created_at
                &&& e.kind == self.kind
                &&& e.tags == self.tags
                &&& e.content == self.content
            }),
    {
        NostrEvent::from_hex(
            self.id.as_str(),
            self.pubkey.as_str(),
            self.created_at,
            self.kind,
            self.tags,
            self.content,
            self.sig.as_str(),
        )
    }
}

impl<'a> From<&'a NostrEvent> for NostrEventJson {
    fn from(event: &'a NostrEvent) -> (r: Self) {
        NostrEventJson::from_event(event)
    }
}

impl<'a> vstd::std_specs::convert::FromSpecImpl<&'a NostrEvent> for NostrEventJson {
    open spec fn obeys_from_spec() -> bool {
        false
    }

    open spec fn from_spec(v: &'a NostrEvent) -> Self {
        vstd::pervasive::arbitrary()
    }
}

impl TryFrom<NostrEventJson> for NostrEvent {
    type Error = hex::FromHexError;

    fn try_from(json: NostrEventJson) -> (r: Result<Self, hex::FromHexError>) {
        json.into_event()
    }
}

impl vstd::std_specs::convert::TryFromSpecImpl<NostrEventJson> for NostrEvent {
    open spec fn obeys_try_from_spec() -> bool {
        false
    }

    open spec fn try_from_spec(v: NostrEventJson) -> Result<Self, hex::FromHexError> {
        vstd::pervasive::arbitrary()
    }
}

/// Going to the JSON shape and back gives an event with the same fields.
pub proof fn lemma_json_shape_roundtrip(e: NostrEvent, j: NostrEventJson)
    requires
        j.id@ == hex_text(e.id@),
        j.pubkey@ == hex_text(e.pubkey@),
        j.sig@ == hex_text(e.sig@),
    ensures
        is_hex_text(j.id@) && is_hex_text(j.pubkey@) && is_hex_text(j.sig@),
        j.id@.len() == 64 && j.pubkey@.len() == 64 && j.sig@.len() == 128,
        hex_bytes(j.id@) == e.id@,
        hex_bytes(j.pubkey@) == e.pubkey@,
        hex_bytes(j.sig@) == e.sig@,
{
    lemma_hex_text_roundtrip(e.id@);
    lemma_hex_text_roundtrip(e.pubkey@);
    lemma_hex_text_roundtrip(e.sig@);
}

/// A copy of a tag list, string by string.
pub fn clone_tags(tags: &Vec<Vec<String>>) -> (r: Vec<Vec<String>>)
    ensures
        r.deep_view() == tags.deep_view(),
{
    let mut out: Vec<Vec<String>> = Vec::new();
    let mut i: usize = 0;
    while i < tags.len()
        invariant
            i <= tags@.len(),
            out@.len() == i,
            forall|k: int| 0 <= k < i ==> (#[trigger] out@[k]).deep_view() == tags@[k].deep_view(),
        decreases tags@.len() - i,
    {
        let tag = &tags[i];
        let mut vals: Vec<String> = Vec::new();
        let mut j: usize = 0;
        while j < tag.len()
            invariant
                j <= tag@.len(),
                vals@.len() == j,
                forall|k: int| 0 <= k < j ==> (#[trigger] vals@[k])@ == tag@[k]@,
            decreases tag@.len() - j,
        {
            vals.push(tag[j].clone());
            j = j + 1;
        }
        proof {
            assert(vals.deep_view() =~= tag.deep_view());
        }
        out.push(vals);
        i = i + 1;
    }
    assert(out.deep_view() =~= tags.deep_view());
    out
}

} // verus!
