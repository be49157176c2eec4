//! The closed set of protocol messages and their field-level validation
//! rules.
//!
//! Validation is a pure check over a message's fields, run both by the sender
//! (fail fast locally) and by the receiver (never trust the wire).

use vstd::prelude::*;
use vstd::string::StrSliceExecFns;

use crate::constants::{MAX_MESSAGE_LEN, MAX_USERNAME_LEN};
use crate::error::ProtocolError;

verus! {

/// A message sent by a client to the server.
#[derive(Debug, Clone, PartialEq)]
pub enum ClientMessage {
    /// Ask to join the chat room under `username`.
    Join { username: String },
    /// Say `content` to the room.
    Chat { content: String },
    /// Leave the room.
    Leave,
    /// Heartbeat request.
    Ping,
}

/// The mathematical shape of a [`ClientMessage`]: the same variants over
/// character sequences.
pub enum ClientMessageView {
    Join { username: Seq<char> },
    Chat { content: Seq<char> },
    Leave,
    Ping,
}

impl View for ClientMessage {
    type V = ClientMessageView;

    open spec fn view(&self) -> ClientMessageView {
        match self {
            ClientMessage::Join { username } => ClientMessageView::Join { username: username@ },
            ClientMessage::Chat { content } => ClientMessageView::Chat { content: content@ },
            ClientMessage::Leave => ClientMessageView::Leave,
            ClientMessage::Ping => ClientMessageView::Ping,
        }
    }
}

/// A message sent by the server to a client.
#[derive(Debug, Clone, PartialEq)]
pub enum ServerMessage {
    /// Reply to a successful `Join`: the assigned user id and a snapshot of
    /// the usernames that were already online.
    Welcome { user_id: u32, online_users: Vec<String> },
    /// `username` joined the room.
    UserJoined { username: String },
    /// `username` left the room.
    UserLeft { username: String },
    /// A chat line, stamped by the server with whole seconds since the Unix
    /// epoch.
    ChatBroadcast { username: String, content: String, timestamp: u64 },
    /// A protocol-level error reply; the connection may stay open.
    Error { message: String },
    /// Heartbeat response.
    Pong,
    /// The server is shutting down; the connection closes after this.
    Shutdown { message: String },
}

/// The character sequences of a list of strings.
pub open spec fn names_view(l: Seq<String>) -> Seq<Seq<char>> {
    l.map_values(|u: String| u@)
}

/// The mathematical shape of a [`ServerMessage`].
pub enum ServerMessageView {
    Welcome { user_id: u32, online_users: Seq<Seq<char>> },
    UserJoined { username: Seq<char> },
    UserLeft { username: Seq<char> },
    ChatBroadcast { username: Seq<char>, content: Seq<char>, timestamp: u64 },
    Error { message: Seq<char> },
    Pong,
    Shutdown { message: Seq<char> },
}

impl View for ServerMessage {
    type V = ServerMessageView;

    open spec fn view(&self) -> ServerMessageView {
        match self {
            ServerMessage::Welcome { user_id, online_users } => ServerMessageView::Welcome {
                user_id: *user_id,
                online_users: names_view(online_users@),
            },
            ServerMessage::UserJoined { username } => ServerMessageView::UserJoined {
                username: username@,
            },
            ServerMessage::UserLeft { username } => ServerMessageView::UserLeft {
                username: username@,
            },
            ServerMessage::ChatBroadcast { username, content, timestamp } => ServerMessageView::ChatBroadcast {
                username: username@,
                content: content@,
                timestamp: *timestamp,
            },
            ServerMessage::Error { message } => ServerMessageView::Error { message: message@ },
            ServerMessage::Pong => ServerMessageView::Pong,
            ServerMessage::Shutdown { message } => ServerMessageView::Shutdown { message: message@ },
        }
    }
}

/// True of the characters a username may hold: ASCII letters, digits,
/// underscore and hyphen.
pub open spec fn is_username_char(c: char) -> bool {
    let u = c as u32;
    ||| 0x30 <= u <= 0x39  // '0'..='9'
    ||| 0x41 <= u <= 0x5a  // 'A'..='Z'
    ||| 0x61 <= u <= 0x7a  // 'a'..='z'
    ||| u == 0x5f  // '_'
    ||| u == 0x2d  // '-'
}

/// A username is accepted when it is non-empty, at most
/// [`MAX_USERNAME_LEN`] characters, and drawn from the accepted character
/// set.
pub open spec fn valid_username(s: Seq<char>) -> bool {
    &&& 0 < s.len() <= MAX_USERNAME_LEN
    &&& forall|i: int| 0 <= i < s.len() ==> is_username_char(#[trigger] s[i])
}

/// A chat line is accepted when it is at most [`MAX_MESSAGE_LEN`]
/// characters.
pub open spec fn valid_content(s: Seq<char>) -> bool {
    s.len() <= MAX_MESSAGE_LEN
}

/// The validation rule of a whole client message: `Join` carries an accepted
/// username, `Chat` an accepted line; `Leave` and `Ping` carry nothing.
pub open spec fn valid_client_message(m: ClientMessageView) -> bool {
    match m {
        ClientMessageView::Join { username } => valid_username(username),
        ClientMessageView::Chat { content } => valid_content(content),
        ClientMessageView::Leave => true,
        ClientMessageView::Ping => true,
    }
}

/// Checks whether `s` is an accepted username; see [`valid_username`].
pub fn check_username(s: &str) -> (r: bool)
    ensures
        r == valid_username(s@),
{
    let n = s.unicode_len();
    if n == 0 || n > MAX_USERNAME_LEN {
        return false;
    }
    let mut i: usize = 0;
    while i < n
        invariant
            n == s@.len(),
            0 <= i <= n,
            forall|j: int| 0 <= j < i ==> is_username_char(#[trigger] s@[j]),
        decreases n - i,
    {
        let c = s.get_char(i);
        let u = c as u32;
        let ok = (0x30 <= u && u <= 0x39) || (0x41 <= u && u <= 0x5a) || (0x61 <= u && u <= 0x7a)
            || u == 0x5f || u == 0x2d;
        if !ok {
            return false;
        }
        i = i + 1;
    }
    true
}

impl ClientMessage {
    /// Checks this message's fields against the protocol's limits.
    ///
    /// Succeeds exactly on valid messages; a `Join` with a rejected username
    /// reports `UsernameTooLong` and a `Chat` with a long line reports
    /// `MessageTooLong`, each carrying the offending length and the limit.
    pub fn validate(&self) -> (r: Result<(), ProtocolError>)
        ensures
            r is Ok <==> valid_client_message(self@),
            match (r, self@) {
                (Err(e), ClientMessageView::Join { username }) => e == (ProtocolError::UsernameTooLong {
                    len: username.len() as usize,
                    max: MAX_USERNAME_LEN,
                }),
                (Err(e), ClientMessageView::Chat { content }) => e == (ProtocolError::MessageTooLong {
                    len: content.len() as usize,
                    max: MAX_MESSAGE_LEN,
                }),
                _ => true,
            },
    {
        match self {
            ClientMessage::Join { username } => {
                if !check_username(username.as_str()) {
                    Err(ProtocolError::UsernameTooLong {
                        len: username.as_str().unicode_len(),
                        max: MAX_USERNAME_LEN,
                    })
                } else {
                    Ok(())
                }
            },
            ClientMessage::Chat { content } => {
                let n = content.as_str().unicode_len();
                if n > MAX_MESSAGE_LEN {
                    Err(ProtocolError::MessageTooLong { len: n, max: MAX_MESSAGE_LEN })
                } else {
                    Ok(())
                }
            },
            ClientMessage::Leave => Ok(()),
            ClientMessage::Ping => Ok(()),
        }
    }
}

} // verus!
