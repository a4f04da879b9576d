//! CBOR packed variant: `[id, pubkey, created_at, kind, tags, content, sig]`.

use vstd::prelude::*;
use ciborium::value::Value;
use crate::cbor::{
    array_value, bytes_of, bytes_value, event_of, extract_bytes, extract_i64, extract_string,
    extract_tags, extract_u16, int_value, read_value, tags_to_value, text_value, write_value,
    CborError,
};
use crate::event::NostrEvent;

verus! {

/// The array of an event's seven fields; `hex_opt` stores hex tag values as byte strings.
pub(crate) fn event_value(event: &NostrEvent, hex_opt: bool) -> Value {
    let mut items: Vec<Value> = Vec::new();
    items.push(bytes_value(bytes_of(event.id.as_slice())));
    items.push(bytes_value(bytes_of(event.pubkey.as_slice())));
    items.push(int_value(event.created_at));
    items.push(int_value(event.kind as i64));
    items.push(tags_to_value(&event.tags, hex_opt));
    items.push(text_value(event.content.clone()));
    items.push(bytes_value(bytes_of(event.sig.as_slice())));
    array_value(items)
}

/// The event of a seven-field array.
pub(crate) fn event_from_value(value: &Value) -> (r: Result<NostrEvent, CborError>) {
    let arr = match value.as_array() {
        Some(a) => a,
        None => return Err(CborError::ExpectedArray),
    };
    if arr.len() != 7 {
        return Err(CborError::InvalidLength("event array"));
    }
    let id = match extract_bytes(&arr[0], "id") {
        Ok(x) => x,
        Err(e) => return Err(e),
    };
    let pubkey = match extract_bytes(&arr[1], "pubkey") {
        Ok(x) => x,
        Err(e) => return Err(e),
    };
    let created_at = match extract_i64(&arr[2], "created_at") {
        Ok(x) => x,
        Err(e) => return Err(e),
    };
    let kind = match extract_u16(&arr[3], "kind") {
        Ok(x) => x,
        Err(e) => return Err(e),
    };
    let tags = match extract_tags(&arr[4]) {
        Ok(x) => x,
        Err(e) => return Err(e),
    };
    let content = match extract_string(&arr[5], "content") {
        Ok(x) => x,
        Err(e) => return Err(e),
    };
    let sig = match extract_bytes(&arr[6], "sig") {
        Ok(x) => x,
        Err(e) => return Err(e),
    };
    event_of(id, pubkey, created_at, kind, tags, content, sig)
}

/// The CBOR bytes of `event`.
pub fn serialize(event: &NostrEvent) -> Vec<u8> {
    write_value(&event_value(event, true))
}

/// The CBOR bytes of `event` with every tag value as text, for comparison.
pub fn serialize_no_hex_opt(event: &NostrEvent) -> Vec<u8> {
    write_value(&event_value(event, false))
}

/// Decodes an event from CBOR bytes.
pub fn deserialize(data: &[u8]) -> (r: Result<NostrEvent, CborError>) {
    match read_value(data) {
        Ok(v) => event_from_value(&v),
        Err(e) => Err(CborError::Ciborium(e)),
    }
}

/// The CBOR array of the events.
pub fn serialize_batch(events: &[NostrEvent]) -> Vec<u8> {
    let mut items: Vec<Value> = Vec::new();
    let mut i: usize = 0;
    while i < events.len()
        invariant
            i <= events@.len(),
        decreases events@.len() - i,
    {
        items.push(event_value(&events[i], true));
        i = i + 1;
    }
    write_value(&array_value(items))
}

/// Decodes a CBOR array of events; any malformed one fails the whole batch.
pub fn deserialize_batch(data: &[u8]) -> (r: Result<Vec<NostrEvent>, CborError>) {
    let v = match read_value(data) {
        Ok(v) => v,
        Err(e) => return Err(CborError::Ciborium(e)),
    };
    let arr = match v.as_array() {
        Some(a) => a,
        None => return Err(CborError::ExpectedArray),
    };
    let mut events: Vec<NostrEvent> = Vec::new();
    let mut i: usize = 0;
    while i < arr.len()
        invariant
            i <= arr@.len(),
        decreases arr@.len() - i,
    {
        match event_from_value(&arr[i]) {
            Ok(e) => events.push(e),
            Err(e) => return Err(e),
        }
        i = i + 1;
    }
    Ok(events)
}

} // verus!
