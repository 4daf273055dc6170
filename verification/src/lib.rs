//! A real-time chat relay core: a connection registry, a broadcast/whisper
//! message router, and the per-connection session state machine.
//!
//! The relay holds no message history; it is a live fan-out router. Transport
//! I/O (socket handshake, reads, writes) lives outside this crate: the
//! session state machine here decides, the router and registry record who
//! receives what, and the surrounding process performs the socket work —
//! taking the registry lock only around directory operations, never across a
//! physical write.

pub mod handle;
pub mod message;
pub mod registry;
pub mod router;
pub mod session;
