//! Core of a multi-user line chat service: a bounded job pool, per-session
//! protocol state machines, and a room broadcaster with blocking backpressure.
//!
//! The crate holds the decision logic of the service. The surrounding binary
//! supplies sockets, readiness polling and threads, and drives these types
//! with the events it observes.

pub mod client;
pub mod pool;
pub mod protocol;
pub mod room;
pub mod server;
pub mod session;
pub mod shutdown;
pub mod text;
