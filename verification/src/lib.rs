//! A binary session-typed communication library.
//!
//! A wire channel carries whole binary records of typed values and is
//! established by a one-round-trip identity handshake; a small RPC layer
//! pairs one send with one receive; a protocol algebra describes the legal
//! sequence of channel operations together with a structural duality map;
//! and a session channel wraps a wire channel in a protocol-typed handle
//! that every operation consumes, so a stale handle cannot be reused.

pub mod channel;
pub mod choice;
pub mod proto;
pub mod rpc;
pub mod session;
pub mod wire;
