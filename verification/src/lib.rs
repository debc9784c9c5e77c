//! The connection state machine of a single-threaded TCP echo service that
//! runs on an edge-triggered, one-shot readiness reactor.
//!
//! The library owns every decision: what a connection buffers, which
//! readiness conditions it re-arms after each I/O attempt, when it is
//! finished, and which slot of the connection table it occupies. The caller
//! owns the sockets and the reactor: it performs each read, write, accept and
//! registration, and reports the outcome back.

pub mod interest;
pub mod ring;
pub mod connection;
pub mod table;
pub mod server;
pub mod echo;
