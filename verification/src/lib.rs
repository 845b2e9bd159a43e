//! Abacus RTS: the interlock coordination primitive, its wire protocol,
//! the daemon's registry and reap-and-wake decisions, and the client SDK's
//! wait logic.

pub mod client;
pub mod clock;
pub mod daemon;
pub mod error;
pub mod interlock;
pub mod registry;
pub mod types;
pub mod waits;
pub mod wire;
pub mod wire_roundtrip;
