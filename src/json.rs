//! JSON (NIP-01) serialization, the baseline format.
//!
//! The object is written field by field in NIP-01 order; `serde_json` quotes
//! the strings and writes the tag array, and parses documents on the way in.

use vstd::prelude::*;
use crate::event::{NostrEvent, NostrEventJson};
use crate::hexstr::hex_text;

verus! {

#[verifier::external_type_specification]
#[verifier::external_body]
pub struct ExJsonValue(serde_json::Value);

#[verifier::external_type_specification]
#[verifier::external_body]
pub struct ExJsonError(serde_json::Error);

pub assume_specification<'a>[ serde_json::Value::as_str ](v: &'a serde_json::Value) -> Option<&'a str>;

pub assume_specification[ serde_json::Value::as_i64 ](v: &serde_json::Value) -> Option<i64>;

pub assume_specification[ serde_json::Value::as_u64 ](v: &serde_json::Value) -> Option<u64>;

pub assume_specification<'a>[ serde_json::Value::as_array ](v: &'a serde_json::Value) -> Option<&'a Vec<serde_json::Value>>;

/// Errors of the JSON adapter.
#[derive(Debug)]
pub enum JsonError {
    /// The document is not JSON.
    Json(serde_json::Error),
    /// A hex field does not decode to the right size.
    Hex(hex::FromHexError),
    /// The named field is missing or has the wrong type.
    MissingField(&'static str),
}

/// The JSON string literal serde_json writes for `s`.
pub uninterp spec fn json_quote(s: Seq<char>) -> Seq<char>;

/// The JSON array of arrays of strings serde_json writes for `tags`.
pub uninterp spec fn json_tags_text(tags: Seq<Seq<Seq<char>>>) -> Seq<char>;

/// Decimal text of an integer, with a minus sign when negative.
pub open spec fn decimal(v: int) -> Seq<char>
    decreases (if v < 0 { -v + 1 } else { v }),
{
    if v < 0 {
        seq!['-'] + decimal(-v)
    } else if v < 10 {
        seq![(v + 48) as char]
    } else {
        decimal(v / 10).push((v % 10 + 48) as char)
    }
}

/// Relies on `serde_json::to_string` on a string: it cannot fail, and the
/// literal depends on the string alone.
#[verifier::external_body]
fn quote(s: &str) -> (r: String)
    ensures
        r@ == json_quote(s@),
{
    serde_json::to_string(s).unwrap()
}

/// Relies on `serde_json::to_string` on nested vectors of strings: it cannot
/// fail, and the array text depends on the strings alone.
#[verifier::external_body]
fn tags_text(tags: &Vec<Vec<String>>) -> (r: String)
    ensures
        r@ == json_tags_text(tags.deep_view()),
{
    serde_json::to_string(tags).unwrap()
}

/// Relies on `i64::to_string`: decimal digits, with a minus sign when negative.
#[verifier::external_body]
fn int_text(v: i64) -> (r: String)
    ensures
        r@ == decimal(v as int),
{
    v.to_string()
}

/// Relies on `serde_json::from_slice` into a `serde_json::Value`.
#[verifier::external_body]
fn parse_value(data: &[u8]) -> (r: Result<serde_json::Value, serde_json::Error>) {
    serde_json::from_slice(data)
}

/// Relies on `serde_json::Value::get` with a string key: the member of an object.
#[verifier::external_body]
fn member<'a>(v: &'a serde_json::Value, key: &str) -> (r: Option<&'a serde_json::Value>) {
    v.get(key)
}

/// The compact JSON object of an event in its JSON shape, fields in NIP-01 order.
pub open spec fn object_text(j: NostrEventJson) -> Seq<char> {
    "{\"id\":"@ + json_quote(j.id@) + ",\"pubkey\":"@ + json_quote(j.pubkey@) + ",\"created_at\":"@
        + decimal(j.created_at as int) + ",\"kind\":"@ + decimal(j.kind as int) + ",\"tags\":"@
        + json_tags_text(j.tags.deep_view()) + ",\"content\":"@ + json_quote(j.content@) + ",\"sig\":"@
        + json_quote(j.sig@) + "}"@
}

/// The compact JSON object of an event.
pub open spec fn event_json_text(e: NostrEvent) -> Seq<char> {
    "{\"id\":"@ + json_quote(hex_text(e.id@)) + ",\"pubkey\":"@ + json_quote(hex_text(e.pubkey@))
        + ",\"created_at\":"@ + decimal(e.created_at as int) + ",\"kind\":"@ + decimal(e.kind as int)
        + ",\"tags\":"@ + json_tags_text(e.tags.deep_view()) + ",\"content\":"@ + json_quote(e.content@)
        + ",\"sig\":"@ + json_quote(hex_text(e.sig@)) + "}"@
}

/// Appends the compact JSON object of `event` to `out`.
fn write_object(event: &NostrEvent, out: &mut String)
    ensures
        final(out)@ == old(out)@ + event_json_text(*event),
{
    let j = NostrEventJson::from_event(event);
    out.append("{\"id\":");
    out.append(quote(j.id.as_str()).as_str());
    out.append(",\"pubkey\":");
    out.append(quote(j.pubkey.as_str()).as_str());
    out.append(",\"created_at\":");
    out.append(int_text(j.created_at).as_str());
    out.append(",\"kind\":");
    out.append(int_text(j.kind as i64).as_str());
    out.append(",\"tags\":");
    out.append(tags_text(&j.tags).as_str());
    out.append(",\"content\":");
    out.append(quote(j.content.as_str()).as_str());
    out.append(",\"sig\":");
    out.append(quote(j.sig.as_str()).as_str());
    out.append("}");
    assert(out@ =~= old(out)@ + event_json_text(*event));
}

/// The JSON text of `event`.
pub fn serialize_string(event: &NostrEvent) -> (r: String)
    ensures
        r@ == event_json_text(*event),
{
    let mut out = String::new();
    write_object(event, &mut out);
    assert(out@ =~= event_json_text(*event));
    out
}

/// Relies on `String::into_bytes`: the UTF-8 encoding of the string.
#[verifier::external_body]
fn into_bytes(s: String) -> (r: Vec<u8>)
    ensures
        r@ == vstd::utf8::encode_utf8(s@),
{
    s.into_bytes()
}

/// The JSON bytes of `event`.
pub fn serialize(event: &NostrEvent) -> (r: Vec<u8>)
    ensures
        r@ == vstd::utf8::encode_utf8(event_json_text(*event)),
{
    into_bytes(serialize_string(event))
}

/// The JSON bytes of `event`; serde_json's output is already compact.
pub fn serialize_compact(event: &NostrEvent) -> (r: Vec<u8>)
    ensures
        r@ == vstd::utf8::encode_utf8(event_json_text(*event)),
{
    serialize(event)
}

/// The JSON array of the objects of `events`, with no spaces.
pub open spec fn batch_json_text(events: Seq<NostrEvent>) -> Seq<char>
    decreases events.len(),
{
    if events.len() == 0 {
        "[]"@
    } else {
        batch_json_text(events.drop_last()).drop_last() + (if events.len() == 1 {
            Seq::empty()
        } else {
            ","@
        }) + event_json_text(events.last()) + "]"@
    }
}

/// The JSON bytes of the array of `events`.
pub fn serialize_batch(events: &[NostrEvent]) -> (r: Vec<u8>)
    ensures
        r@ == vstd::utf8::encode_utf8(batch_json_text(events@)),
{
    let mut out = String::new();
    let mut i: usize = 0;
    proof {
        reveal_strlit("[");
        reveal_strlit("]");
        reveal_strlit("[]");
        reveal_strlit(",");
    }
    out.append("[");
    while i < events.len()
        invariant
            i <= events@.len(),
            out@ + "]"@ == batch_json_text(events@.take(i as int)),
        decreases events@.len() - i,
    {
        let ghost before = out@;
        if i > 0 {
            out.append(",");
        }
        write_object(&events[i], &mut out);
        proof {
            reveal_strlit("]");
            reveal_strlit(",");
            let t = events@.take(i + 1);
            assert(t.drop_last() =~= events@.take(i as int));
            assert(t.last() == events@[i as int]);
            assert((before + "]"@).drop_last() =~= before);
            assert(out@ + "]"@ =~= batch_json_text(t));
        }
        i = i + 1;
    }
    out.append("]");
    assert(events@.take(i as int) =~= events@);
    into_bytes(out)
}

/// Reads the string member `key` of `v`.
fn str_member(v: &serde_json::Value, key: &'static str) -> (r: Result<String, JsonError>)
    ensures
        r is Err ==> r == Err::<String, JsonError>(JsonError::MissingField(key)),
{
    match member(v, key) {
        Some(m) => match m.as_str() {
            Some(s) => Ok(s.to_string()),
            None => Err(JsonError::MissingField(key)),
        },
        None => Err(JsonError::MissingField(key)),
    }
}

/// Reads the member `tags` of `v`: an array of arrays of strings.
fn tags_member(v: &serde_json::Value) -> (r: Result<Vec<Vec<String>>, JsonError>)
    ensures
        r is Err ==> r == Err::<Vec<Vec<String>>, JsonError>(JsonError::MissingField("tags")),
{
    let arr = match member(v, "tags") {
        Some(m) => match m.as_array() {
            Some(a) => a,
            None => return Err(JsonError::MissingField("tags")),
        },
        None => return Err(JsonError::MissingField("tags")),
    };
    let mut tags: Vec<Vec<String>> = Vec::new();
    let mut i: usize = 0;
    while i < arr.len()
        invariant
            i <= arr@.len(),
        decreases arr@.len() - i,
    {
        let inner = match arr[i].as_array() {
            Some(a) => a,
            None => return Err(JsonError::MissingField("tags")),
        };
        let mut vals: Vec<String> = Vec::new();
        let mut j: usize = 0;
        while j < inner.len()
            invariant
                j <= inner@.len(),
            decreases inner@.len() - j,
        {
            match inner[j].as_str() {
                Some(s) => vals.push(s.to_string()),
                None => return Err(JsonError::MissingField("tags")),
            }
            j = j + 1;
        }
        tags.push(vals);
        i = i + 1;
    }
    Ok(tags)
}

/// Reads an event out of a parsed JSON object.
fn event_from_value(v: &serde_json::Value) -> (r: Result<NostrEvent, JsonError>) {
    let id = match str_member(v, "id") {
        Ok(s) => s,
        Err(e) => return Err(e),
    };
    let pubkey = match str_member(v, "pubkey") {
        Ok(s) => s,
        Err(e) => return Err(e),
    };
    let created_at = match member(v, "created_at") {
        Some(m) => match m.as_i64() {
            Some(x) => x,
            None => return Err(JsonError::MissingField("created_at")),
        },
        None => return Err(JsonError::MissingField("created_at")),
    };
    let kind = match member(v, "kind") {
        Some(m) => match m.as_u64() {
            Some(x) => {
                if x > u16::MAX as u64 {
                    return Err(JsonError::MissingField("kind"));
                }
                x as u16
            },
            None => return Err(JsonError::MissingField("kind")),
        },
        None => return Err(JsonError::MissingField("kind")),
    };
    let tags = match tags_member(v) {
        Ok(t) => t,
        Err(e) => return Err(e),
    };
    let content = match str_member(v, "content") {
        Ok(s) => s,
        Err(e) => return Err(e),
    };
    let sig = match str_member(v, "sig") {
        Ok(s) => s,
        Err(e) => return Err(e),
    };
    let j = NostrEventJson { id, pubkey, created_at, kind, tags, content, sig };
    match j.into_event() {
        Ok(e) => Ok(e),
        Err(e) => Err(JsonError::Hex(e)),
    }
}

/// Decodes an event from JSON bytes.
pub fn deserialize(data: &[u8]) -> (r: Result<NostrEvent, JsonError>) {
    match parse_value(data) {
        Ok(v) => event_from_value(&v),
        Err(e) => Err(JsonError::Json(e)),
    }
}

/// Decodes an event from JSON text.
pub fn deserialize_str(data: &str) -> (r: Result<NostrEvent, JsonError>) {
    deserialize(data.as_bytes())
}

/// Decodes an array of events from JSON bytes.
pub fn deserialize_batch(data: &[u8]) -> (r: Result<Vec<NostrEvent>, JsonError>) {
    let v = match parse_value(data) {
        Ok(v) => v,
        Err(e) => return Err(JsonError::Json(e)),
    };
    let arr = match v.as_array() {
        Some(a) => a,
        None => return Err(JsonError::MissingField("events")),
    };
    let mut events: Vec<NostrEvent> = Vec::new();
    let mut i: usize = 0;
    while i < arr.len()
        invariant
            i <= arr@.len(),
        decreases arr@.len() - i,
    {
        match event_from_value(&arr[i]) {
            Ok(e) => events.push(e),
            Err(e) => return Err(e),
        }
        i = i + 1;
    }
    Ok(events)
}

} // verus!
