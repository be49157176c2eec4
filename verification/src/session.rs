//! The per-connection session state machine and the server's control
//! decisions.
//!
//! A session moves `Accepted -> AwaitingJoin -> Active -> Terminating ->
//! Closed`. The decisions of the session's event loop — what to reply, what
//! to publish to the fanout, and which phase comes next, for every message,
//! timeout, fanout event or shutdown signal — are pure functions here; the
//! surrounding task performs the I/O and hands the observed event in.

use vstd::prelude::*;
use vstd::string::StrSliceExecFns;

use crate::constants::{DRAIN_DEADLINE_MILLIS, MAX_CONNECTIONS, MAX_MESSAGE_LEN};
use crate::message::{
    check_username, names_view, valid_content, valid_username, ClientMessage, ClientMessageView,
    ServerMessage, ServerMessageView,
};
use crate::registry::{has_id, has_name, index_of_id, SharedState};

verus! {

/// An event distributed through the broadcast fanout to every active
/// session. Ephemeral: a session not subscribed at publish time never sees
/// it.
#[derive(Debug, Clone)]
pub enum BroadcastMsg {
    /// A chat line, stamped with whole seconds since the Unix epoch.
    Chat { username: String, content: String, timestamp: u64 },
    /// A user joined.
    UserJoined { username: String },
    /// A user left.
    UserLeft { username: String },
    /// The server is shutting down.
    Shutdown { message: String },
}

/// The mathematical shape of a [`BroadcastMsg`].
pub enum BroadcastMsgView {
    Chat { username: Seq<char>, content: Seq<char>, timestamp: u64 },
    UserJoined { username: Seq<char> },
    UserLeft { username: Seq<char> },
    Shutdown { message: Seq<char> },
}

impl View for BroadcastMsg {
    type V = BroadcastMsgView;

    open spec fn view(&self) -> BroadcastMsgView {
        match self {
            BroadcastMsg::Chat { username, content, timestamp } => BroadcastMsgView::Chat {
                username: username@,
                content: content@,
                timestamp: *timestamp,
            },
            BroadcastMsg::UserJoined { username } => BroadcastMsgView::UserJoined {
                username: username@,
            },
            BroadcastMsg::UserLeft { username } => BroadcastMsgView::UserLeft {
                username: username@,
            },
            BroadcastMsg::Shutdown { message } => BroadcastMsgView::Shutdown { message: message@ },
        }
    }
}

/// The server message an active session writes out for a fanout event.
pub open spec fn broadcast_to_server(b: BroadcastMsgView) -> ServerMessageView {
    match b {
        BroadcastMsgView::Chat { username, content, timestamp } => ServerMessageView::ChatBroadcast {
            username,
            content,
            timestamp,
        },
        BroadcastMsgView::UserJoined { username } => ServerMessageView::UserJoined { username },
        BroadcastMsgView::UserLeft { username } => ServerMessageView::UserLeft { username },
        BroadcastMsgView::Shutdown { message } => ServerMessageView::Shutdown { message },
    }
}

/// The usernames of a user table, in registration order.
pub open spec fn entry_names(es: Seq<(u32, Seq<char>)>) -> Seq<Seq<char>> {
    es.map_values(|p: (u32, Seq<char>)| p.1)
}

/// A session's lifecycle phase.
#[derive(Debug, Clone, Copy, PartialEq, Eq, Structural)]
pub enum SessionPhase {
    /// Freshly accepted; not yet waiting for the handshake.
    Accepted,
    /// Waiting for the client's `Join` under the join timeout.
    AwaitingJoin,
    /// Registered and exchanging messages.
    Active,
    /// On the way out; the registry entry still has to be released.
    Terminating,
    /// Fully torn down.
    Closed,
}

/// One connection's server-side state, from handshake to teardown.
pub struct Session {
    /// Where in the lifecycle the session stands.
    pub phase: SessionPhase,
    /// The registered user id, once the handshake succeeded.
    pub user_id: Option<u32>,
    /// The registered username, once the handshake succeeded.
    pub username: String,
}

impl Session {
    /// A session carries its user identity from activation to teardown.
    pub open spec fn wf(&self) -> bool {
        (self.phase is Active || self.phase is Terminating) ==> self.user_id is Some
    }

    /// A fresh session for an accepted connection: no identity yet.
    pub fn new() -> (s: Session)
        ensures
            s.wf(),
            s.phase is Accepted,
            s.user_id is None,
            s.username@ == Seq::<char>::empty(),
    {
        Session { phase: SessionPhase::Accepted, user_id: None, username: String::new() }
    }

    /// Enters the handshake: the session now waits for `Join` under the
    /// join timeout.
    pub fn start_handshake(&mut self)
        requires
            old(self).phase is Accepted,
        ensures
            final(self).phase is AwaitingJoin,
            final(self).user_id == old(self).user_id,
            final(self).username == old(self).username,
            final(self).wf(),
    {
        self.phase = SessionPhase::AwaitingJoin;
    }
}

/// What came of waiting for one inbound client message.
pub enum RecvOutcome {
    /// A message arrived.
    Msg(ClientMessage),
    /// The peer closed the stream (a normal disconnect).
    Closed,
    /// The stream failed or a frame was malformed.
    Failed,
    /// The wait timed out.
    TimedOut,
}

/// Everything an active session can be woken by.
pub enum SessionInput {
    /// The inbound side produced an outcome (under the heartbeat timeout).
    FromClient(RecvOutcome),
    /// The fanout delivered an event.
    FromFanout(BroadcastMsg),
    /// The fanout dropped events because this session lagged; absorbed, not
    /// an error.
    FanoutLagged,
    /// The fanout closed.
    FanoutClosed,
    /// The server signalled shutdown.
    ShutdownSignal,
}

/// What one step of the state machine asks the task to do.
pub struct StepOutput {
    /// Write this message to the session's own client.
    pub reply: Option<ServerMessage>,
    /// Publish this event to the fanout.
    pub publish: Option<BroadcastMsg>,
}

/// Handles the outcome of waiting for the handshake's `Join` message.
///
/// A valid, unused username registers the user, replies `Welcome` with the
/// id and a snapshot of who was online, and publishes `UserJoined`. Anything
/// else — a rejected username, a taken username, a non-`Join` message, a
/// timeout — replies an error (nothing on a dead stream) and closes without
/// registering anyone.
pub fn handle_join_wait(state: &mut SharedState, session: &mut Session, outcome: RecvOutcome) -> (
    out: StepOutput)
    requires
        old(state).wf(),
        old(state).next_id() < u32::MAX,
        old(session).phase is AwaitingJoin,
    ensures
        final(state).wf(),
        final(session).wf(),
        final(state).connections() == old(state).connections(),
        match outcome {
            RecvOutcome::Msg(m) => match m {
                ClientMessage::Join { username } => {
                    if !valid_username(username@) {
                        &&& final(session).phase is Closed
                        &&& *final(state) == *old(state)
                        &&& out.publish is None
                        &&& out.reply matches Some(r) && r@ == (ServerMessageView::Error {
                            message: "invalid username"@,
                        })
                    } else if has_name(old(state).entries(), username@) {
                        &&& final(session).phase is Closed
                        &&& *final(state) == *old(state)
                        &&& out.publish is None
                        &&& out.reply matches Some(r) && r@ == (ServerMessageView::Error {
                            message: "username taken"@,
                        })
                    } else {
                        &&& final(session).phase is Active
                        &&& final(session).user_id == Some(old(state).next_id())
                        &&& final(session).username@ == username@
                        &&& final(state).entries() == old(state).entries().push(
                            (old(state).next_id(), username@),
                        )
                        &&& final(state).next_id() == old(state).next_id() + 1
                        &&& out.reply matches Some(r) && r@ == (ServerMessageView::Welcome {
                            user_id: old(state).next_id(),
                            online_users: entry_names(old(state).entries()),
                        })
                        &&& out.publish matches Some(b) && b@ == (BroadcastMsgView::UserJoined {
                            username: username@,
                        })
                    }
                },
                _ => {
                    &&& final(session).phase is Closed
                    &&& *final(state) == *old(state)
                    &&& out.publish is None
                    &&& out.reply matches Some(r) && r@ == (ServerMessageView::Error {
                        message: "join first"@,
                    })
                },
            },
            RecvOutcome::TimedOut => {
                &&& final(session).phase is Closed
                &&& *final(state) == *old(state)
                &&& out.publish is None
                &&& out.reply matches Some(r) && r@ == (ServerMessageView::Error {
                    message: "join timeout"@,
                })
            },
            _ => {
                &&& final(session).phase is Closed
                &&& *final(state) == *old(state)
                &&& out.reply is None
                &&& out.publish is None
            },
        },
{
    match outcome {
        RecvOutcome::Msg(m) => match m {
            ClientMessage::Join { username } => {
                if !check_username(username.as_str()) {
                    session.phase = SessionPhase::Closed;
                    StepOutput {
                        reply: Some(ServerMessage::Error { message: "invalid username".to_owned() }),
                        publish: None,
                    }
                } else if state.contains_name(&username) {
                    session.phase = SessionPhase::Closed;
                    StepOutput {
                        reply: Some(ServerMessage::Error { message: "username taken".to_owned() }),
                        publish: None,
                    }
                } else {
                    let online = state.online_users();
                    let id = match state.add_user(username.clone()) {
                        Some(id) => id,
                        None => {
                            proof {
                                assert(false);
                            }
                            0
                        },
                    };
                    session.phase = SessionPhase::Active;
                    session.user_id = Some(id);
                    session.username = username.clone();
                    proof {
                        assert(names_view(online@) =~= entry_names(old(state).entries()));
                    }
                    StepOutput {
                        reply: Some(ServerMessage::Welcome { user_id: id, online_users: online }),
                        publish: Some(BroadcastMsg::UserJoined { username }),
                    }
                }
            },
            _ => {
                session.phase = SessionPhase::Closed;
                StepOutput {
                    reply: Some(ServerMessage::Error { message: "join first".to_owned() }),
                    publish: None,
                }
            },
        },
        RecvOutcome::TimedOut => {
            session.phase = SessionPhase::Closed;
            StepOutput {
                reply: Some(ServerMessage::Error { message: "join timeout".to_owned() }),
                publish: None,
            }
        },
        _ => {
            session.phase = SessionPhase::Closed;
            StepOutput { reply: None, publish: None }
        },
    }
}

/// Handles one input of an active session.
///
/// A valid `Chat` is republished with the server's timestamp; an oversized
/// one is answered with an error and the session stays open (the connection
/// remains usable). `Ping` is answered `Pong` directly. `Leave`, a dead or
/// silent stream (heartbeat timeout), a shutdown signal or a closed fanout
/// all move to `Terminating` without an error reply. A fanout event is
/// written out verbatim; a `Shutdown` event also terminates after being
/// written. Fanout lag is absorbed.
pub fn handle_active_input(session: &mut Session, input: SessionInput, now: u64) -> (out:
    StepOutput)
    requires
        old(session).phase is Active,
        old(session).wf(),
    ensures
        final(session).wf(),
        final(session).user_id == old(session).user_id,
        final(session).username == old(session).username,
        match input {
            SessionInput::FromClient(outcome) => match outcome {
                RecvOutcome::Msg(m) => match m {
                    ClientMessage::Chat { content } => {
                        if valid_content(content@) {
                            &&& final(session).phase is Active
                            &&& out.reply is None
                            &&& out.publish matches Some(b) && b@ == (BroadcastMsgView::Chat {
                                username: old(session).username@,
                                content: content@,
                                timestamp: now,
                            })
                        } else {
                            &&& final(session).phase is Active
                            &&& out.publish is None
                            &&& out.reply matches Some(r) && r@ == (ServerMessageView::Error {
                                message: "message too long"@,
                            })
                        }
                    },
                    ClientMessage::Ping => {
                        &&& final(session).phase is Active
                        &&& out.publish is None
                        &&& out.reply matches Some(r) && r@ == ServerMessageView::Pong
                    },
                    ClientMessage::Leave => {
                        &&& final(session).phase is Terminating
                        &&& out.reply is None
                        &&& out.publish is None
                    },
                    ClientMessage::Join { .. } => {
                        &&& final(session).phase is Active
                        &&& out.publish is None
                        &&& out.reply matches Some(r) && r@ == (ServerMessageView::Error {
                            message: "already joined"@,
                        })
                    },
                },
                _ => {
                    &&& final(session).phase is Terminating
                    &&& out.reply is None
                    &&& out.publish is None
                },
            },
            SessionInput::FromFanout(b) => {
                &&& out.reply matches Some(r) && r@ == broadcast_to_server(b@)
                &&& out.publish is None
                &&& (b@ matches BroadcastMsgView::Shutdown { .. } ==> final(session).phase
                    is Terminating)
                &&& (!(b@ matches BroadcastMsgView::Shutdown { .. }) ==> final(session).phase
                    is Active)
            },
            SessionInput::FanoutLagged => {
                &&& final(session).phase is Active
                &&& out.reply is None
                &&& out.publish is None
            },
            _ => {
                &&& final(session).phase is Terminating
                &&& out.reply is None
                &&& out.publish is None
            },
        },
{
    match input {
        SessionInput::FromClient(outcome) => match outcome {
            RecvOutcome::Msg(m) => match m {
                ClientMessage::Chat { content } => {
                    if content.as_str().unicode_len() <= MAX_MESSAGE_LEN {
                        StepOutput {
                            reply: None,
                            publish: Some(
                                BroadcastMsg::Chat {
                                    username: session.username.clone(),
                                    content,
                                    timestamp: now,
                                },
                            ),
                        }
                    } else {
                        StepOutput {
                            reply: Some(
                                ServerMessage::Error { message: "message too long".to_owned() },
                            ),
                            publish: None,
                        }
                    }
                },
                ClientMessage::Ping => {
                    StepOutput { reply: Some(ServerMessage::Pong), publish: None }
                },
                ClientMessage::Leave => {
                    session.phase = SessionPhase::Terminating;
                    StepOutput { reply: None, publish: None }
                },
                ClientMessage::Join { .. } => {
                    StepOutput {
                        reply: Some(ServerMessage::Error { message: "already joined".to_owned() }),
                        publish: None,
                    }
                },
            },
            _ => {
                session.phase = SessionPhase::Terminating;
                StepOutput { reply: None, publish: None }
            },
        },
        SessionInput::FromFanout(b) => {
            let (reply, terminate) = match b {
                BroadcastMsg::Chat { username, content, timestamp } => (
                    ServerMessage::ChatBroadcast { username, content, timestamp },
                    false,
                ),
                BroadcastMsg::UserJoined { username } => (
                    ServerMessage::UserJoined { username },
                    false,
                ),
                BroadcastMsg::UserLeft { username } => (
                    ServerMessage::UserLeft { username },
                    false,
                ),
                BroadcastMsg::Shutdown { message } => (ServerMessage::Shutdown { message }, true),
            };
            if terminate {
                session.phase = SessionPhase::Terminating;
            }
            StepOutput { reply: Some(reply), publish: None }
        },
        SessionInput::FanoutLagged => StepOutput { reply: None, publish: None },
        _ => {
            session.phase = SessionPhase::Terminating;
            StepOutput { reply: None, publish: None }
        },
    }
}

/// Tears a session down: deregisters its user and closes.
///
/// Publishes `UserLeft` exactly when the removal freed a live entry, so
/// tearing the same user down twice publishes it only once; afterwards the
/// registry holds no entry with the session's id.
pub fn finish_session(state: &mut SharedState, session: &mut Session) -> (publish: Option<
    BroadcastMsg,
>)
    requires
        old(state).wf(),
    ensures
        final(state).wf(),
        final(session).phase is Closed,
        final(state).connections() == old(state).connections(),
        final(state).next_id() == old(state).next_id(),
        match old(session).user_id {
            Some(id) => {
                &&& !has_id(final(state).entries(), id)
                &&& match publish {
                    Some(b) => {
                        &&& has_id(old(state).entries(), id)
                        &&& ({
                            let i = index_of_id(old(state).entries(), id);
                            &&& b@ == (BroadcastMsgView::UserLeft {
                                username: old(state).entries()[i].1,
                            })
                            &&& final(state).entries() == old(state).entries().remove(i)
                        })
                    },
                    None => {
                        &&& !has_id(old(state).entries(), id)
                        &&& *final(state) == *old(state)
                    },
                }
            },
            None => publish is None && *final(state) == *old(state),
        },
{
    session.phase = SessionPhase::Closed;
    match session.user_id {
        Some(id) => match state.remove_user(id) {
            Some(name) => Some(BroadcastMsg::UserLeft { username: name }),
            None => None,
        },
        None => None,
    }
}

/// Admission control at accept time.
///
/// Takes a connection slot and admits, or — exactly when the counter is at
/// [`MAX_CONNECTIONS`] — leaves the counter alone and hands back the one
/// `Error` reply to send before closing.
pub fn admit_connection(state: &mut SharedState) -> (r: Result<(), ServerMessage>)
    requires
        old(state).wf(),
    ensures
        final(state).wf(),
        final(state).entries() == old(state).entries(),
        final(state).next_id() == old(state).next_id(),
        match r {
            Ok(()) => {
                &&& old(state).connections() < MAX_CONNECTIONS
                &&& final(state).connections() == old(state).connections() + 1
            },
            Err(reply) => {
                &&& old(state).connections() >= MAX_CONNECTIONS
                &&& *final(state) == *old(state)
                &&& reply@ == (ServerMessageView::Error { message: "server busy"@ })
            },
        },
{
    if state.try_add_connection() {
        Ok(())
    } else {
        Err(ServerMessage::Error { message: "server busy".to_owned() })
    }
}

/// The event a termination request publishes to every active session.
pub fn shutdown_event() -> (b: BroadcastMsg)
    ensures
        b@ == (BroadcastMsgView::Shutdown { message: "server shutting down"@ }),
{
    BroadcastMsg::Shutdown { message: "server shutting down".to_owned() }
}

/// Whether the shutdown drain is over: every connection is gone, or the
/// drain deadline has elapsed (the server then exits regardless of
/// stragglers).
pub fn drain_complete(state: &SharedState, elapsed_millis: u64) -> (r: bool)
    ensures
        r == (state.connections() == 0 || elapsed_millis >= DRAIN_DEADLINE_MILLIS),
{
    state.online_count() == 0 || elapsed_millis >= DRAIN_DEADLINE_MILLIS
}

} // verus!
