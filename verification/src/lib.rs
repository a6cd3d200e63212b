//! Core of a real-time chat relay.
//!
//! Clients authenticate with a bearer token during a WebSocket upgrade and
//! then exchange broadcast messages that support `<<!uuid>>` mention tags.
//! This crate holds the verified heart of the relay: the message codec
//! (frame decoding, mention extraction, outbound encoding), the registry of
//! registered and currently connected clients together with the coordinator
//! that serializes every mutation of it, the per-connection protocol steps
//! (handshake, join, relay, leave), and the decision logic of the companion
//! HTTP listing endpoint. Transport, storage and task plumbing live outside
//! the library and only hand plain values in and out.

pub mod channel;
pub mod client;
pub mod codec;
pub mod http;
pub mod message;
pub mod protocol;
pub mod random;
pub mod server;
pub mod sink;
pub mod text;
