//! Packet schemas: the closed set of packets for each phase and direction,
//! each with its id, fields, and serialization order.

pub mod configuration;
pub mod handshake;
pub mod login;
pub mod play;
pub mod status;
