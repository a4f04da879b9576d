//! Binostr: wire formats for Nostr events, centred on a compact binary codec
//! whose encoder and decoder are proved to be inverse to each other.

pub mod capnp;
pub mod cbor;
pub mod dannypack;
pub mod event;
pub mod hexpack;
pub mod hexstr;
pub mod json;
pub mod notepack;
pub mod proto;
pub mod sampling;
pub mod stats;
pub mod wire;

pub use event::NostrEvent;
