//! Protocol constants: the supported wire version, field and frame size
//! limits, the global connection cap, and the protocol's timeout values.

use vstd::prelude::*;

verus! {

/// The single supported protocol version; the first byte of every frame.
pub const PROTOCOL_VERSION: u8 = 1;

/// Longest accepted username, in characters.
pub const MAX_USERNAME_LEN: usize = 20;

/// Longest accepted chat message, in characters.
pub const MAX_MESSAGE_LEN: usize = 4096;

/// Largest accepted frame payload, in bytes.
pub const MAX_FRAME_SIZE: usize = 8192;

/// Global cap on simultaneously admitted connections.
pub const MAX_CONNECTIONS: usize = 100;

/// Client ping cadence, in seconds.
pub const HEARTBEAT_INTERVAL_SECS: u64 = 10;

/// Server-side idle-read cutoff, in seconds: a session that receives nothing
/// for this long is torn down.
pub const HEARTBEAT_TIMEOUT_SECS: u64 = 30;

/// A connection must send `Join` within this many seconds of being accepted.
pub const JOIN_TIMEOUT_SECS: u64 = 30;

/// Client-side connection timeout, in seconds.
pub const CONNECT_TIMEOUT_SECS: u64 = 10;

/// During graceful shutdown the server waits at most this many milliseconds
/// for live sessions to drain before exiting regardless.
pub const DRAIN_DEADLINE_MILLIS: u64 = 5000;

} // verus!
