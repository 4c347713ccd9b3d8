//! A live-streaming media server core: the RTMP chunk codec, the handshake,
//! the per-connection session state machine, the channel hub that fans one
//! publisher out to many subscribers, and the relay clients' retry policy.
//!
//! Everything in this crate is synchronous and free of I/O. A host program
//! owns the sockets and tasks, feeds bytes and events in, and carries out the
//! actions that come back.

pub mod xiu_config;

pub mod endpoint;
pub mod message;
pub mod channels;
pub mod channel_laws;
pub mod service;
pub mod chunk;
pub mod handshake;
pub mod amf0;
pub mod command;
pub mod command_laws;
pub mod session;
pub mod session_laws;
pub mod relay;
pub mod connection;
pub mod connection_laws;
