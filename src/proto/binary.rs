//! Protocol Buffers with the id, pubkey and sig as raw bytes.

use vstd::prelude::*;
use crate::event::NostrEvent;
use crate::proto::{get_batch, get_event, pb_batch, pb_event, put_batch, put_event, ProtoError};

verus! {

/// The `ProtoEvent` bytes of `event`.
pub fn serialize(event: &NostrEvent) -> (r: Vec<u8>)
    ensures
        r@ == pb_event(*event, true),
{
    let mut buf: Vec<u8> = Vec::new();
    put_event(event, true, &mut buf);
    assert(buf@ =~= pb_event(*event, true));
    buf
}

/// The `EventBatch` bytes of `events`.
pub fn serialize_batch(events: &[NostrEvent]) -> (r: Vec<u8>)
    ensures
        r@ == pb_batch(events@, true),
{
    put_batch(events, true)
}

/// Decodes a `ProtoEvent`.
pub fn deserialize(data: &[u8]) -> (r: Result<NostrEvent, ProtoError>) {
    get_event(data, 0, data.len(), true)
}

/// Decodes an `EventBatch`.
pub fn deserialize_batch(data: &[u8]) -> (r: Result<Vec<NostrEvent>, ProtoError>) {
    get_batch(data, true)
}

} // verus!
