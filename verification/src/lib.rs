//! A verified core of the Minecraft Java Edition network protocol, game
//! version 1.21.4 (protocol 769), for the offline, uncompressed subset.
//!
//! The crate holds the wire codec (varints, fixed-width primitives, strings,
//! UUIDs, NBT trees, paletted chunk sections), the per-phase packet schemas,
//! the frame envelope, the phase state machine, the registry store, and the
//! session choreography, each with contracts that pin the exact bytes
//! produced and the exact values decoded. Sockets, clocks and JSON parsing
//! stay outside; callers hand in bytes and plain values and get bytes and
//! plain values back.

use vstd::prelude::*;

pub mod chunk;
pub mod connection;
pub mod deserialize;
pub mod json;
pub mod nbt;
pub mod packets;
pub mod roundtrip;
pub mod registries;
pub mod serialize;
pub mod session;
pub mod state;
pub mod varint;
pub mod wire;

verus! {

} // verus!
