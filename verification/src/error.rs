//! The protocol's error taxonomy.

use vstd::prelude::*;

verus! {

/// Everything that can go wrong on a connection, from transport faults to
/// field-level validation failures.
///
/// `VersionMismatch` and `FrameTooLarge` are fatal to the connection;
/// `UsernameTooLong` and `MessageTooLong` are answered with an `Error` reply
/// and the session continues; `ConnectionClosed` is a normal disconnect.
#[derive(Debug, Clone, PartialEq)]
pub enum ProtocolError {
    /// A transport-level I/O failure (reported by the I/O layer).
    Io,
    /// A frame payload that does not spell a message of the expected schema.
    Serialization,
    /// A frame whose version byte differs from [`crate::constants::PROTOCOL_VERSION`].
    VersionMismatch { expected: u8, actual: u8 },
    /// A frame or payload longer than [`crate::constants::MAX_FRAME_SIZE`].
    FrameTooLarge { size: usize, max: usize },
    /// A connect, join or heartbeat deadline expired.
    ConnectionTimeout,
    /// The peer closed the stream.
    ConnectionClosed,
    /// A `Join` username that is empty, too long, or holds a character outside
    /// the accepted set.
    UsernameTooLong { len: usize, max: usize },
    /// A `Chat` content longer than [`crate::constants::MAX_MESSAGE_LEN`].
    MessageTooLong { len: usize, max: usize },
}

impl ProtocolError {
    /// A short human-readable phrase naming the error.
    pub fn describe(&self) -> (r: &'static str)
        ensures
            r@ == self.describe_spec(),
    {
        match self {
            ProtocolError::Io => "io error",
            ProtocolError::Serialization => "malformed payload",
            ProtocolError::VersionMismatch { .. } => "protocol version mismatch",
            ProtocolError::FrameTooLarge { .. } => "frame too large",
            ProtocolError::ConnectionTimeout => "connection timeout",
            ProtocolError::ConnectionClosed => "connection closed",
            ProtocolError::UsernameTooLong { .. } => "invalid username",
            ProtocolError::MessageTooLong { .. } => "message too long",
        }
    }

    /// The phrase [`Self::describe`] returns for each variant.
    pub open spec fn describe_spec(&self) -> Seq<char> {
        match self {
            ProtocolError::Io => "io error"@,
            ProtocolError::Serialization => "malformed payload"@,
            ProtocolError::VersionMismatch { .. } => "protocol version mismatch"@,
            ProtocolError::FrameTooLarge { .. } => "frame too large"@,
            ProtocolError::ConnectionTimeout => "connection timeout"@,
            ProtocolError::ConnectionClosed => "connection closed"@,
            ProtocolError::UsernameTooLong { .. } => "invalid username"@,
            ProtocolError::MessageTooLong { .. } => "message too long"@,
        }
    }
}

} // verus!
