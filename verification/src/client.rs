//! The client's state: connection lifecycle, bounded message history, the
//! online-user list, and the handling of events arriving from the network
//! task.
//!
//! The front end owns a [`ChatClient`] and talks to the network task through
//! plain values: it hands in the [`NetworkEvent`]s the task produced and
//! receives [`UiCommand`]s to enqueue. The whole event handling is specified
//! by the transition function [`client_step`] and verified against it.

use vstd::prelude::*;
use vstd::string::{StrSliceExecFns, StringExecFns};

use crate::constants::MAX_USERNAME_LEN;
use crate::message::{
    names_view, valid_username, ClientMessage, ClientMessageView, ServerMessage, ServerMessageView,
};
use crate::text::ascii_to_string;
use std::collections::VecDeque;

verus! {

/// Capacity of the message history; the oldest entry is evicted first.
pub const MAX_MESSAGES: usize = 1000;

/// What the front end asks the network task to do.
#[derive(Debug)]
pub enum UiCommand {
    /// Connect to `addr` and join as `username`.
    Connect { addr: String, username: String },
    /// Say `content` to the room.
    SendChat { content: String },
    /// Leave and close the connection.
    Disconnect,
}

/// What the network task reports back to the front end.
#[derive(Debug, Clone)]
pub enum NetworkEvent {
    /// The handshake succeeded.
    Connected { user_id: u32, online_users: Vec<String> },
    /// The connection or the handshake failed.
    ConnectFailed { reason: String },
    /// A chat line arrived.
    ChatMessage { username: String, content: String, timestamp: u64 },
    /// A user joined the room.
    UserJoined { username: String },
    /// A user left the room.
    UserLeft { username: String },
    /// The server answered with an error.
    Error { message: String },
    /// The connection ended.
    Disconnected { reason: String },
}

/// The mathematical shape of a [`NetworkEvent`].
#[verifier::ext_equal]
pub enum NetworkEventView {
    Connected { user_id: u32, online_users: Seq<Seq<char>> },
    ConnectFailed { reason: Seq<char> },
    ChatMessage { username: Seq<char>, content: Seq<char>, timestamp: u64 },
    UserJoined { username: Seq<char> },
    UserLeft { username: Seq<char> },
    Error { message: Seq<char> },
    Disconnected { reason: Seq<char> },
}

impl View for NetworkEvent {
    type V = NetworkEventView;

    open spec fn view(&self) -> NetworkEventView {
        match self {
            NetworkEvent::Connected { user_id, online_users } => NetworkEventView::Connected {
                user_id: *user_id,
                online_users: names_view(online_users@),
            },
            NetworkEvent::ConnectFailed { reason } => NetworkEventView::ConnectFailed {
                reason: reason@,
            },
            NetworkEvent::ChatMessage { username, content, timestamp } => NetworkEventView::ChatMessage {
                username: username@,
                content: content@,
                timestamp: *timestamp,
            },
            NetworkEvent::UserJoined { username } => NetworkEventView::UserJoined {
                username: username@,
            },
            NetworkEvent::UserLeft { username } => NetworkEventView::UserLeft {
                username: username@,
            },
            NetworkEvent::Error { message } => NetworkEventView::Error { message: message@ },
            NetworkEvent::Disconnected { reason } => NetworkEventView::Disconnected {
                reason: reason@,
            },
        }
    }
}

/// One line of the message history.
#[derive(Debug, Clone)]
pub struct ChatMessage {
    pub username: String,
    pub content: String,
    pub timestamp: u64,
    /// True for lines the client itself writes (joins, leaves, notices).
    pub is_system: bool,
}

/// The mathematical shape of a [`ChatMessage`].
#[verifier::ext_equal]
pub struct ChatMessageView {
    pub username: Seq<char>,
    pub content: Seq<char>,
    pub timestamp: u64,
    pub is_system: bool,
}

impl View for ChatMessage {
    type V = ChatMessageView;

    open spec fn view(&self) -> ChatMessageView {
        ChatMessageView {
            username: self.username@,
            content: self.content@,
            timestamp: self.timestamp,
            is_system: self.is_system,
        }
    }
}

/// The views of a message history.
pub open spec fn history_view(l: Seq<ChatMessage>) -> Seq<ChatMessageView> {
    l.map_values(|m: ChatMessage| m@)
}

/// The client's connection lifecycle.
#[derive(Debug, Clone, PartialEq)]
pub enum ConnectionState {
    Disconnected,
    Connecting,
    Connected { user_id: u32, username: String },
}

/// The mathematical shape of a [`ConnectionState`].
#[verifier::ext_equal]
pub enum ConnectionStateView {
    Disconnected,
    Connecting,
    Connected { user_id: u32, username: Seq<char> },
}

impl View for ConnectionState {
    type V = ConnectionStateView;

    open spec fn view(&self) -> ConnectionStateView {
        match self {
            ConnectionState::Disconnected => ConnectionStateView::Disconnected,
            ConnectionState::Connecting => ConnectionStateView::Connecting,
            ConnectionState::Connected { user_id, username } => ConnectionStateView::Connected {
                user_id: *user_id,
                username: username@,
            },
        }
    }
}

/// The client's state as the front end sees it.
pub struct ChatClient {
    /// Connection lifecycle.
    pub state: ConnectionState,
    /// Bounded message history, oldest evicted first.
    pub messages: VecDeque<ChatMessage>,
    /// Who is online, kept in sync from server events.
    pub online_users: Vec<String>,
    /// The input box's content.
    pub input_text: String,
    /// The server address to connect to.
    pub server_addr: String,
    /// The username to join under.
    pub username: String,
    /// The error to surface, if any.
    pub error_message: Option<String>,
}

/// The mathematical shape of a [`ChatClient`].
#[verifier::ext_equal]
pub struct ClientView {
    pub state: ConnectionStateView,
    pub messages: Seq<ChatMessageView>,
    pub online: Seq<Seq<char>>,
    pub input: Seq<char>,
    pub addr: Seq<char>,
    pub username: Seq<char>,
    pub error: Option<Seq<char>>,
}

impl View for ChatClient {
    type V = ClientView;

    open spec fn view(&self) -> ClientView {
        ClientView {
            state: self.state@,
            messages: history_view(self.messages@),
            online: names_view(self.online_users@),
            input: self.input_text@,
            addr: self.server_addr@,
            username: self.username@,
            error: match self.error_message {
                Some(e) => Some(e@),
                None => None,
            },
        }
    }
}

/// Appends a line to a history, evicting the oldest line when the history
/// is full.
pub open spec fn push_evict(h: Seq<ChatMessageView>, m: ChatMessageView) -> Seq<ChatMessageView> {
    if h.len() >= MAX_MESSAGES {
        h.drop_first().push(m)
    } else {
        h.push(m)
    }
}

/// A system line: written by the client itself, under the name `system`.
pub open spec fn system_message(content: Seq<char>, now: u64) -> ChatMessageView {
    ChatMessageView { username: "system"@, content, timestamp: now, is_system: true }
}

/// The list without every occurrence of `name`.
pub open spec fn remove_name(l: Seq<Seq<char>>, name: Seq<char>) -> Seq<Seq<char>> {
    l.filter(|n: Seq<char>| n != name)
}

/// What one network event does to the client's state: the specification of
/// [`ChatClient::handle_event`]. `now` stamps the system lines the client
/// writes for itself.
pub open spec fn client_step(c: ClientView, e: NetworkEventView, now: u64) -> ClientView {
    match e {
        NetworkEventView::Connected { user_id, online_users } => {
            if c.state is Connecting {
                ClientView {
                    state: ConnectionStateView::Connected { user_id, username: c.username },
                    error: None,
                    online: online_users,
                    messages: push_evict(c.messages, system_message("connected to server"@, now)),
                    ..c
                }
            } else {
                c
            }
        },
        NetworkEventView::ConnectFailed { reason } => ClientView {
            state: ConnectionStateView::Disconnected,
            error: Some(reason),
            ..c
        },
        NetworkEventView::ChatMessage { username, content, timestamp } => ClientView {
            messages: push_evict(
                c.messages,
                ChatMessageView { username, content, timestamp, is_system: false },
            ),
            ..c
        },
        NetworkEventView::UserJoined { username } => ClientView {
            online: if c.online.contains(username) {
                c.online
            } else {
                c.online.push(username)
            },
            messages: push_evict(c.messages, system_message(username + " joined the room"@, now)),
            ..c
        },
        NetworkEventView::UserLeft { username } => ClientView {
            online: remove_name(c.online, username),
            messages: push_evict(c.messages, system_message(username + " left the room"@, now)),
            ..c
        },
        NetworkEventView::Error { message } => ClientView { error: Some(message), ..c },
        NetworkEventView::Disconnected { reason } => ClientView {
            state: ConnectionStateView::Disconnected,
            online: Seq::empty(),
            messages: push_evict(c.messages, system_message("disconnected: "@ + reason, now)),
            ..c
        },
    }
}

/// [`client_step`] folded over a queue of events, front first.
pub open spec fn client_steps(c: ClientView, evs: Seq<NetworkEventView>, now: u64) -> ClientView
    decreases evs.len(),
{
    if evs.len() == 0 {
        c
    } else {
        client_steps(client_step(c, evs[0], now), evs.drop_first(), now)
    }
}

/// The views of a queue of events.
pub open spec fn events_view(evs: Seq<NetworkEvent>) -> Seq<NetworkEventView> {
    evs.map_values(|e: NetworkEvent| e@)
}

impl ChatClient {
    /// A fresh, disconnected client with the default server address.
    pub fn new() -> (c: ChatClient)
        ensures
            c@.state is Disconnected,
            c@.messages == Seq::<ChatMessageView>::empty(),
            c@.online == Seq::<Seq<char>>::empty(),
            c@.input == Seq::<char>::empty(),
            c@.addr == "127.0.0.1:8080"@,
            c@.username == Seq::<char>::empty(),
            c@.error is None,
    {
        let c = ChatClient {
            state: ConnectionState::Disconnected,
            messages: VecDeque::new(),
            online_users: Vec::new(),
            input_text: String::new(),
            server_addr: "127.0.0.1:8080".to_owned(),
            username: String::new(),
            error_message: None,
        };
        proof {
            assert(c@.messages =~= Seq::<ChatMessageView>::empty());
            assert(c@.online =~= Seq::<Seq<char>>::empty());
        }
        c
    }

    /// Appends a line to the history, evicting the oldest when full.
    pub fn add_message(&mut self, msg: ChatMessage)
        ensures
            final(self)@ == (ClientView { messages: push_evict(old(self)@.messages, msg@), ..old(
                self,
            )@ }),
    {
        if self.messages.len() >= MAX_MESSAGES {
            let ghost pre = self.messages@;
            self.messages.pop_front();
            proof {
                assert(history_view(self.messages@) =~= history_view(pre).drop_first());
            }
        }
        let ghost mid = self.messages@;
        self.messages.push_back(msg);
        proof {
            assert(history_view(self.messages@) =~= history_view(mid).push(msg@));
            assert(self@ =~~= (ClientView {
                messages: push_evict(old(self)@.messages, msg@),
                ..old(self)@
            }));
        }
    }

    /// Appends a system line under the name `system`, stamped `now`.
    pub fn add_system_message(&mut self, content: String, now: u64)
        ensures
            final(self)@ == (ClientView {
                messages: push_evict(old(self)@.messages, system_message(content@, now)),
                ..old(self)@
            }),
    {
        self.add_message(
            ChatMessage { username: "system".to_owned(), content, timestamp: now, is_system: true },
        );
    }

    /// Applies one network event to the client's state, as [`client_step`]
    /// says.
    pub fn handle_event(&mut self, event: NetworkEvent, now: u64)
        ensures
            final(self)@ == client_step(old(self)@, event@, now),
    {
        match event {
            NetworkEvent::Connected { user_id, online_users } => {
                let connecting = match self.state {
                    ConnectionState::Connecting => true,
                    _ => false,
                };
                if connecting {
                    self.state = ConnectionState::Connected {
                        user_id,
                        username: self.username.clone(),
                    };
                    self.error_message = None;
                    self.online_users = online_users;
                    self.add_system_message("connected to server".to_owned(), now);
                    assert(self@ =~~= client_step(old(self)@, event@, now));
                } else {
                    assert(self@ =~~= client_step(old(self)@, event@, now));
                }
            },
            NetworkEvent::ConnectFailed { reason } => {
                self.state = ConnectionState::Disconnected;
                self.error_message = Some(reason);
                assert(self@ =~~= client_step(old(self)@, event@, now));
            },
            NetworkEvent::ChatMessage { username, content, timestamp } => {
                self.add_message(ChatMessage { username, content, timestamp, is_system: false });
                assert(self@ =~~= client_step(old(self)@, event@, now));
            },
            NetworkEvent::UserJoined { username } => {
                if !self.contains_online(&username) {
                    self.online_users.push(username.clone());
                    proof {
                        assert(names_view(self.online_users@) =~= names_view(
                            old(self).online_users@,
                        ).push(username@));
                    }
                }
                self.add_system_message(username.concat(" joined the room"), now);
                assert(self@ =~~= client_step(old(self)@, event@, now));
            },
            NetworkEvent::UserLeft { username } => {
                self.retain_online_except(&username);
                self.add_system_message(username.concat(" left the room"), now);
                assert(self@ =~~= client_step(old(self)@, event@, now));
            },
            NetworkEvent::Error { message } => {
                self.error_message = Some(message);
                assert(self@ =~~= client_step(old(self)@, event@, now));
            },
            NetworkEvent::Disconnected { reason } => {
                self.state = ConnectionState::Disconnected;
                self.online_users = Vec::new();
                proof {
                    assert(names_view(self.online_users@) =~= Seq::<Seq<char>>::empty());
                }
                let notice = "disconnected: ".to_owned().concat(reason.as_str());
                self.add_system_message(notice, now);
                assert(self@ =~~= client_step(old(self)@, event@, now));
            },
        }
    }

    /// Whether `name` is on the online list.
    fn contains_online(&self, name: &String) -> (r: bool)
        ensures
            r == self@.online.contains(name@),
    {
        let n = self.online_users.len();
        let mut i: usize = 0;
        while i < n
            invariant
                n == self.online_users@.len(),
                0 <= i <= n,
                forall|j: int| 0 <= j < i ==> #[trigger] self@.online[j] != name@,
            decreases n - i,
        {
            if self.online_users[i].eq(name) {
                assert(self@.online[i as int] == name@);
                return true;
            }
            assert(self@.online[i as int] != name@);
            i = i + 1;
        }
        assert(!self@.online.contains(name@));
        false
    }

    /// Drops every occurrence of `name` from the online list.
    #[verifier::loop_isolation(false)]
    fn retain_online_except(&mut self, name: &String)
        ensures
            final(self)@ == (ClientView {
                online: remove_name(old(self)@.online, name@),
                ..old(self)@
            }),
    {
        let n = self.online_users.len();
        let mut kept: Vec<String> = Vec::new();
        let mut i: usize = 0;
        while i < n
            invariant
                n == self.online_users@.len(),
                0 <= i <= n,
                *self == *old(self),
                names_view(kept@) == remove_name(self@.online.take(i as int), name@),
            decreases n - i,
        {
            let ghost taken = self@.online.take(i as int);
            proof {
                assert(self@.online.take(i as int + 1) =~= taken.push(self@.online[i as int]));
                reveal_with_fuel(Seq::<Seq<char>>::filter, 2);
                assert(taken.push(self@.online[i as int]).drop_last() =~= taken);
            }
            if !self.online_users[i].eq(name) {
                kept.push(self.online_users[i].clone());
                proof {
                    assert(names_view(kept@) =~= remove_name(
                        self@.online.take(i as int + 1),
                        name@,
                    ));
                }
            } else {
                proof {
                    assert(names_view(kept@) =~= remove_name(
                        self@.online.take(i as int + 1),
                        name@,
                    ));
                }
            }
            i = i + 1;
        }
        proof {
            assert(self@.online.take(n as int) =~= self@.online);
        }
        self.online_users = kept;
        proof {
            assert(self@ =~~= (ClientView {
                online: remove_name(old(self)@.online, name@),
                ..old(self)@
            }));
        }
    }

    /// Applies a batch of events, front first, as [`client_steps`] says;
    /// reports whether there was anything to apply.
    pub fn poll_events(&mut self, events: Vec<NetworkEvent>, now: u64) -> (had: bool)
        ensures
            final(self)@ == client_steps(old(self)@, events_view(events@), now),
            had == (events@.len() > 0),
    {
        let had = events.len() > 0;
        let mut rest = events;
        while rest.len() > 0
            invariant
                client_steps(old(self)@, events_view(events@), now) == client_steps(
                    self@,
                    events_view(rest@),
                    now,
                ),
            decreases rest@.len(),
        {
            let ghost pre_rest = rest@;
            let e = rest.remove(0);
            proof {
                assert(events_view(pre_rest)[0] == e@);
                assert(events_view(rest@) =~= events_view(pre_rest).drop_first());
            }
            self.handle_event(e, now);
        }
        proof {
            assert(events_view(rest@).len() == 0);
        }
        had
    }

    /// Checks the username field: non-empty, at most [`MAX_USERNAME_LEN`]
    /// characters, letters, digits, underscore and hyphen only. The error
    /// names the first rule broken.
    pub fn validate_username(&self) -> (r: Result<(), String>)
        ensures
            r is Ok <==> valid_username(self@.username),
            match r {
                Ok(()) => true,
                Err(e) => e@ == if self@.username.len() == 0 {
                    "username must not be empty"@
                } else if self@.username.len() > MAX_USERNAME_LEN {
                    "username too long"@
                } else {
                    "username has invalid characters"@
                },
            },
    {
        let n = self.username.as_str().unicode_len();
        if n == 0 {
            Err("username must not be empty".to_owned())
        } else if n > MAX_USERNAME_LEN {
            Err("username too long".to_owned())
        } else if !crate::message::check_username(self.username.as_str()) {
            Err("username has invalid characters".to_owned())
        } else {
            Ok(())
        }
    }

    /// Starts connecting: validates the username and, when it passes, moves
    /// to `Connecting` and hands back the `Connect` command to enqueue.
    /// Does nothing unless disconnected.
    pub fn connect(&mut self) -> (cmd: Option<UiCommand>)
        ensures
            if old(self)@.state is Disconnected {
                if valid_username(old(self)@.username) {
                    &&& final(self)@ == (ClientView {
                        state: ConnectionStateView::Connecting,
                        error: None,
                        ..old(self)@
                    })
                    &&& cmd matches Some(UiCommand::Connect { addr, username }) && addr@ == old(
                        self,
                    )@.addr && username@ == old(self)@.username
                } else {
                    &&& final(self)@ == (ClientView {
                        error: Some(
                            if old(self)@.username.len() == 0 {
                                "username must not be empty"@
                            } else if old(self)@.username.len() > MAX_USERNAME_LEN {
                                "username too long"@
                            } else {
                                "username has invalid characters"@
                            },
                        ),
                        ..old(self)@
                    })
                    &&& cmd is None
                }
            } else {
                &&& *final(self) == *old(self)
                &&& cmd is None
            },
    {
        match self.state {
            ConnectionState::Disconnected => {
                match self.validate_username() {
                    Err(e) => {
                        let ghost msg = e@;
                        self.error_message = Some(e);
                        assert(self@ =~~= (ClientView { error: Some(msg), ..old(self)@ }));
                        None
                    },
                    Ok(()) => {
                        self.state = ConnectionState::Connecting;
                        self.error_message = None;
                        assert(self@ =~~= (ClientView {
                            state: ConnectionStateView::Connecting,
                            error: None,
                            ..old(self)@
                        }));
                        Some(
                            UiCommand::Connect {
                                addr: self.server_addr.clone(),
                                username: self.username.clone(),
                            },
                        )
                    },
                }
            },
            _ => None,
        }
    }

    /// Hands back the `Disconnect` command when connected; the state itself
    /// changes only once the network task reports the disconnect.
    pub fn disconnect(&mut self) -> (cmd: Option<UiCommand>)
        ensures
            *final(self) == *old(self),
            (cmd matches Some(UiCommand::Disconnect)) <==> old(self)@.state matches
                ConnectionStateView::Connected { .. },
            !(old(self)@.state matches ConnectionStateView::Connected { .. }) ==> cmd is None,
    {
        match self.state {
            ConnectionState::Connected { .. } => Some(UiCommand::Disconnect),
            _ => None,
        }
    }

    /// Takes the input box's line and hands back the `SendChat` command for
    /// it; does nothing when not connected or the box is empty.
    pub fn send_message(&mut self) -> (cmd: Option<UiCommand>)
        ensures
            if old(self)@.state matches ConnectionStateView::Connected { .. } && old(
                self,
            )@.input.len() > 0 {
                &&& final(self)@ == (ClientView { input: Seq::empty(), ..old(self)@ })
                &&& cmd matches Some(UiCommand::SendChat { content }) && content@ == old(
                    self,
                )@.input
            } else {
                &&& *final(self) == *old(self)
                &&& cmd is None
            },
    {
        let connected = match self.state {
            ConnectionState::Connected { .. } => true,
            _ => false,
        };
        if connected && !self.input_text.as_str().is_empty() {
            let content = self.input_text.clone();
            self.input_text = String::new();
            assert(self@ =~~= (ClientView { input: Seq::<char>::empty(), ..old(self)@ }));
            Some(UiCommand::SendChat { content })
        } else {
            None
        }
    }

    /// Whether the client is connected.
    pub fn is_connected(&self) -> (r: bool)
        ensures
            r == (self@.state matches ConnectionStateView::Connected { .. }),
    {
        match self.state {
            ConnectionState::Connected { .. } => true,
            _ => false,
        }
    }
}

impl Default for ChatClient {
    /// The same fresh client [`ChatClient::new`] builds.
    fn default() -> (c: ChatClient)
        ensures
            c@.state is Disconnected,
            c@.messages == Seq::<ChatMessageView>::empty(),
            c@.online == Seq::<Seq<char>>::empty(),
            c@.input == Seq::<char>::empty(),
            c@.addr == "127.0.0.1:8080"@,
            c@.username == Seq::<char>::empty(),
            c@.error is None,
    {
        ChatClient::new()
    }
}

/// What the network task does with the reply to its `Join`: the event to
/// report, and whether the session goes on.
pub struct HandshakeStep {
    /// The event to hand to the front end.
    pub event: NetworkEvent,
    /// True when the handshake succeeded and the message loop starts.
    pub proceed: bool,
}

/// Interprets the server's reply to the handshake's `Join`.
///
/// `Welcome` reports `Connected` and proceeds; an `Error` reply or any other
/// message reports `ConnectFailed` and stops.
pub fn interpret_join_reply(msg: ServerMessage) -> (r: HandshakeStep)
    ensures
        match msg@ {
            ServerMessageView::Welcome { user_id, online_users } => {
                &&& r.proceed
                &&& r.event matches NetworkEvent::Connected { user_id: uid, online_users: l }
                    && uid == user_id && names_view(l@) == online_users
            },
            ServerMessageView::Error { message } => {
                &&& !r.proceed
                &&& r.event matches NetworkEvent::ConnectFailed { reason } && reason@ == "join failed: "@
                    + message
            },
            _ => {
                &&& !r.proceed
                &&& r.event matches NetworkEvent::ConnectFailed { reason } && reason@
                    == "protocol error: no welcome"@
            },
        },
{
    match msg {
        ServerMessage::Welcome { user_id, online_users } => HandshakeStep {
            event: NetworkEvent::Connected { user_id, online_users },
            proceed: true,
        },
        ServerMessage::Error { message } => HandshakeStep {
            event: NetworkEvent::ConnectFailed {
                reason: "join failed: ".to_owned().concat(message.as_str()),
            },
            proceed: false,
        },
        _ => HandshakeStep {
            event: NetworkEvent::ConnectFailed {
                reason: "protocol error: no welcome".to_owned(),
            },
            proceed: false,
        },
    }
}

/// What the network task does with one server message in the steady state.
pub struct ClientLoopStep {
    /// The event to hand to the front end, if any.
    pub event: Option<NetworkEvent>,
    /// True when the connection ends after this message.
    pub disconnect: bool,
}

/// Turns one server message into the event the front end sees.
///
/// Broadcasts, presence notices and errors are reported; `Pong` and a
/// repeated `Welcome` are swallowed; `Shutdown` reports a disconnect and
/// ends the connection.
pub fn handle_server_message(msg: ServerMessage) -> (r: ClientLoopStep)
    ensures
        match msg@ {
            ServerMessageView::ChatBroadcast { username, content, timestamp } => {
                &&& !r.disconnect
                &&& r.event matches Some(NetworkEvent::ChatMessage { username: u, content: c, timestamp: t })
                    && u@ == username && c@ == content && t == timestamp
            },
            ServerMessageView::UserJoined { username } => {
                &&& !r.disconnect
                &&& r.event matches Some(NetworkEvent::UserJoined { username: u }) && u@
                    == username
            },
            ServerMessageView::UserLeft { username } => {
                &&& !r.disconnect
                &&& r.event matches Some(NetworkEvent::UserLeft { username: u }) && u@ == username
            },
            ServerMessageView::Error { message } => {
                &&& !r.disconnect
                &&& r.event matches Some(NetworkEvent::Error { message: m }) && m@ == message
            },
            ServerMessageView::Pong => r.event is None && !r.disconnect,
            ServerMessageView::Welcome { .. } => r.event is None && !r.disconnect,
            ServerMessageView::Shutdown { message } => {
                &&& r.disconnect
                &&& r.event matches Some(NetworkEvent::Disconnected { reason }) && reason@
                    == "server shutdown: "@ + message
            },
        },
{
    match msg {
        ServerMessage::ChatBroadcast { username, content, timestamp } => ClientLoopStep {
            event: Some(NetworkEvent::ChatMessage { username, content, timestamp }),
            disconnect: false,
        },
        ServerMessage::UserJoined { username } => ClientLoopStep {
            event: Some(NetworkEvent::UserJoined { username }),
            disconnect: false,
        },
        ServerMessage::UserLeft { username } => ClientLoopStep {
            event: Some(NetworkEvent::UserLeft { username }),
            disconnect: false,
        },
        ServerMessage::Error { message } => ClientLoopStep {
            event: Some(NetworkEvent::Error { message }),
            disconnect: false,
        },
        ServerMessage::Pong => ClientLoopStep { event: None, disconnect: false },
        ServerMessage::Welcome { .. } => ClientLoopStep { event: None, disconnect: false },
        ServerMessage::Shutdown { message } => ClientLoopStep {
            event: Some(
                NetworkEvent::Disconnected {
                    reason: "server shutdown: ".to_owned().concat(message.as_str()),
                },
            ),
            disconnect: true,
        },
    }
}

/// Turns one front-end command into the message to send, if any, and
/// whether the connection ends after sending it.
///
/// `SendChat` sends `Chat`; `Disconnect` sends `Leave` and ends the
/// connection; a `Connect` while already connected is ignored.
pub fn command_to_message(cmd: UiCommand) -> (r: (Option<ClientMessage>, bool))
    ensures
        match cmd {
            UiCommand::SendChat { content } => {
                &&& r.0 matches Some(m) && m@ == (ClientMessageView::Chat {
                    content: content@,
                })
                &&& !r.1
            },
            UiCommand::Disconnect => {
                &&& r.0 matches Some(m) && m@ == ClientMessageView::Leave
                &&& r.1
            },
            UiCommand::Connect { .. } => r.0 is None && !r.1,
        },
{
    match cmd {
        UiCommand::SendChat { content } => (Some(ClientMessage::Chat { content }), false),
        UiCommand::Disconnect => (Some(ClientMessage::Leave), true),
        UiCommand::Connect { .. } => (None, false),
    }
}

/// The character a decimal digit prints as.
pub open spec fn digit_char(d: int) -> char
    recommends
        0 <= d < 10,
{
    ((48 + d) as u8) as char
}

/// Two decimal digits, zero-padded.
pub open spec fn two_digits(n: int) -> Seq<char>
    recommends
        0 <= n < 100,
{
    seq![digit_char(n / 10), digit_char(n % 10)]
}

/// What [`format_timestamp`] prints: `just now` within a minute of `now`,
/// otherwise the wall-clock time `HH:MM:SS` in the display's fixed zone
/// (UTC+8).
pub open spec fn spec_format_timestamp(timestamp: u64, now: u64) -> Seq<char> {
    if now >= timestamp && now - timestamp < 60 {
        "just now"@
    } else {
        let secs = (timestamp % 86400) as int;
        let hours = (secs / 3600 + 8) % 24;
        let minutes = (secs % 3600) / 60;
        let seconds = secs % 60;
        two_digits(hours) + seq![':' ] + two_digits(minutes) + seq![':' ] + two_digits(seconds)
    }
}

/// Prints a message timestamp for display, given the current time.
pub fn format_timestamp(timestamp: u64, now: u64) -> (r: String)
    ensures
        r@ == spec_format_timestamp(timestamp, now),
{
    if now >= timestamp && now - timestamp < 60 {
        return "just now".to_owned();
    }
    let secs = timestamp % 86400;
    let hours = (secs / 3600 + 8) % 24;
    let minutes = (secs % 3600) / 60;
    let seconds = secs % 60;
    let mut bytes: Vec<u8> = Vec::new();
    bytes.push(48 + (hours / 10) as u8);
    bytes.push(48 + (hours % 10) as u8);
    bytes.push(58);
    bytes.push(48 + (minutes / 10) as u8);
    bytes.push(48 + (minutes % 10) as u8);
    bytes.push(58);
    bytes.push(48 + (seconds / 10) as u8);
    bytes.push(48 + (seconds % 10) as u8);
    let r = ascii_to_string(bytes);
    proof {
        assert(r@ =~= spec_format_timestamp(timestamp, now));
    }
    r
}

} // verus!
