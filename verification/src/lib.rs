//! Core of a real-time text chat service: the binary wire protocol (framing
//! and message codec), message validation, the server-side user registry with
//! admission control, the per-connection session state machine, and the
//! client-side connection state.
//!
//! All I/O lives outside this crate; the types here work on plain values
//! (bytes in, bytes out) so that every rule of the protocol is verified.

pub mod client;
pub mod codec;
pub mod connection;
pub mod constants;
pub mod error;
pub mod message;
pub mod registry;
pub mod session;
pub mod text;
pub mod transport;
