//! CBOR schemaless variant: the fields under their names, like JSON.

use vstd::prelude::*;
use ciborium::value::Value;
use crate::cbor::{array_value, event_from_map, map_of_event, read_value, write_value, CborError};
use crate::event::NostrEvent;

verus! {

/// The CBOR bytes of `event`.
pub fn serialize(event: &NostrEvent) -> Vec<u8> {
    write_value(&map_of_event(event, true, false))
}

/// Decodes an event from CBOR bytes.
pub fn deserialize(data: &[u8]) -> (r: Result<NostrEvent, CborError>) {
    match read_value(data) {
        Ok(v) => event_from_map(&v, true),
        Err(e) => Err(CborError::Ciborium(e)),
    }
}

/// The CBOR array of the events.
pub fn serialize_batch(events: &[NostrEvent]) -> Vec<u8> {
    let mut items: Vec<Value> = Vec::new();
    let mut i: usize = 0;
    while i < events.len()
        invariant
            i <= events@.len(),
        decreases events@.len() - i,
    {
        items.push(map_of_event(&events[i], true, false));
        i = i + 1;
    }
    write_value(&array_value(items))
}

/// Decodes a CBOR array of events; any malformed one fails the whole batch.
pub fn deserialize_batch(data: &[u8]) -> (r: Result<Vec<NostrEvent>, CborError>) {
    let v = match read_value(data) {
        Ok(v) => v,
        Err(e) => return Err(CborError::Ciborium(e)),
    };
    let arr = match v.as_array() {
        Some(a) => a,
        None => return Err(CborError::ExpectedArray),
    };
    let mut events: Vec<NostrEvent> = Vec::new();
    let mut i: usize = 0;
    while i < arr.len()
        invariant
            i <= arr@.len(),
        decreases arr@.len() - i,
    {
        match event_from_map(&arr[i], true) {
            Ok(e) => events.push(e),
            Err(e) => return Err(e),
        }
        i = i + 1;
    }
    Ok(events)
}

} // verus!
