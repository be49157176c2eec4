//! Configuration for the byte-stream transport underneath the codec.
//!
//! The transport itself (sockets, connect, accept) lives outside the
//! library; this type carries the knobs the library's rules fix for it.

use vstd::prelude::*;

use crate::constants::CONNECT_TIMEOUT_SECS;

verus! {

/// How a client-side transport connects.
#[derive(Debug, Clone)]
pub struct TransportConfig {
    /// Give up on a connection attempt after this many seconds.
    pub connect_timeout_secs: u64,
    /// Disable Nagle's algorithm on the stream (recommended for chat: less
    /// latency).
    pub nodelay: bool,
}

impl Default for TransportConfig {
    /// The protocol's default: the standard connect timeout, with no delay.
    fn default() -> (c: TransportConfig)
        ensures
            c.connect_timeout_secs == CONNECT_TIMEOUT_SECS,
            c.nodelay == true,
    {
        TransportConfig { connect_timeout_secs: CONNECT_TIMEOUT_SECS, nodelay: true }
    }
}

} // verus!
