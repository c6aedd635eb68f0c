//! A record store served over framed byte streams.
//!
//! Many client connections submit operations as text; one actor owns the
//! store and applies them one at a time. This crate holds the protocol and
//! the rules of that arrangement as plain functions on plain values: the
//! frame codec, the per-connection protocol machine, the two request queues,
//! the actor's service policy and the store itself. Sockets, threads and the
//! decoding of operation text stay with the caller.

pub mod actor;
pub mod codec;
pub mod execute;
pub mod record;
pub mod server;
pub mod store;
pub mod text;
pub mod transport;
