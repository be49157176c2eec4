use chat_core::constants::DRAIN_DEADLINE_MILLIS;
use chat_core::message::{ClientMessage, ServerMessage};
use chat_core::registry::SharedState;
use chat_core::session::{
    admit_connection, drain_complete, finish_session, handle_active_input, handle_join_wait,
    shutdown_event, BroadcastMsg, RecvOutcome, Session, SessionInput, SessionPhase,
};

fn joined_session(state: &mut SharedState, name: &str) -> Session {
    assert!(admit_connection(state).is_ok());
    let mut session = Session::new();
    session.start_handshake();
    let out = handle_join_wait(
        state,
        &mut session,
        RecvOutcome::Msg(ClientMessage::Join { username: name.to_string() }),
    );
    assert!(matches!(out.reply, Some(ServerMessage::Welcome { .. })));
    assert_eq!(session.phase, SessionPhase::Active);
    session
}

#[test]
fn test_join_then_duplicate_join() {
    let mut state = SharedState::new();

    // First client joins as alice.
    assert!(admit_connection(&mut state).is_ok());
    let mut s1 = Session::new();
    s1.start_handshake();
    let out = handle_join_wait(
        &mut state,
        &mut s1,
        RecvOutcome::Msg(ClientMessage::Join { username: "alice".to_string() }),
    );
    match out.reply {
        Some(ServerMessage::Welcome { user_id, online_users }) => {
            assert_eq!(user_id, 1);
            assert_eq!(online_users, Vec::<String>::new());
        }
        other => panic!("expected Welcome, got {:?}", other),
    }
    assert!(matches!(
        out.publish,
        Some(BroadcastMsg::UserJoined { .. })
    ));

    // A second client asks for the same name.
    assert!(admit_connection(&mut state).is_ok());
    let mut s2 = Session::new();
    s2.start_handshake();
    let out = handle_join_wait(
        &mut state,
        &mut s2,
        RecvOutcome::Msg(ClientMessage::Join { username: "alice".to_string() }),
    );
    match out.reply {
        Some(ServerMessage::Error { message }) => assert_eq!(message, "username taken"),
        other => panic!("expected an error, got {:?}", other),
    }
    assert!(out.publish.is_none());
    assert_eq!(s2.phase, SessionPhase::Closed);
    assert_eq!(s2.user_id, None);
    // No id was assigned: the next join gets id 2.
    assert!(admit_connection(&mut state).is_ok());
    let mut s3 = Session::new();
    s3.start_handshake();
    let out = handle_join_wait(
        &mut state,
        &mut s3,
        RecvOutcome::Msg(ClientMessage::Join { username: "bob".to_string() }),
    );
    match out.reply {
        Some(ServerMessage::Welcome { user_id, online_users }) => {
            assert_eq!(user_id, 2);
            assert_eq!(online_users, vec!["alice".to_string()]);
        }
        other => panic!("expected Welcome, got {:?}", other),
    }
}

#[test]
fn test_join_rejections_close_without_registering() {
    let mut state = SharedState::new();

    // An invalid username.
    let mut s = Session::new();
    s.start_handshake();
    let out = handle_join_wait(
        &mut state,
        &mut s,
        RecvOutcome::Msg(ClientMessage::Join { username: "bad name!".to_string() }),
    );
    assert!(matches!(out.reply, Some(ServerMessage::Error { .. })));
    assert_eq!(s.phase, SessionPhase::Closed);

    // A non-Join message first.
    let mut s = Session::new();
    s.start_handshake();
    let out = handle_join_wait(
        &mut state,
        &mut s,
        RecvOutcome::Msg(ClientMessage::Chat { content: "hi".to_string() }),
    );
    assert!(matches!(out.reply, Some(ServerMessage::Error { .. })));
    assert_eq!(s.phase, SessionPhase::Closed);

    // The join timeout.
    let mut s = Session::new();
    s.start_handshake();
    let out = handle_join_wait(&mut state, &mut s, RecvOutcome::TimedOut);
    match out.reply {
        Some(ServerMessage::Error { message }) => assert_eq!(message, "join timeout"),
        other => panic!("expected an error, got {:?}", other),
    }
    assert_eq!(s.phase, SessionPhase::Closed);

    // A dead stream: no reply at all.
    let mut s = Session::new();
    s.start_handshake();
    let out = handle_join_wait(&mut state, &mut s, RecvOutcome::Closed);
    assert!(out.reply.is_none());
    assert_eq!(s.phase, SessionPhase::Closed);

    // Nobody was registered by any of it.
    assert!(state.online_users().is_empty());
}

#[test]
fn test_oversized_chat_keeps_session_open() {
    let mut state = SharedState::new();
    let mut session = joined_session(&mut state, "alice");

    let out = handle_active_input(
        &mut session,
        SessionInput::FromClient(RecvOutcome::Msg(ClientMessage::Chat {
            content: "x".repeat(5000),
        })),
        1000,
    );
    match out.reply {
        Some(ServerMessage::Error { message }) => assert_eq!(message, "message too long"),
        other => panic!("expected an error, got {:?}", other),
    }
    assert!(out.publish.is_none());
    assert_eq!(session.phase, SessionPhase::Active);

    // The connection remains usable afterwards.
    let out = handle_active_input(
        &mut session,
        SessionInput::FromClient(RecvOutcome::Msg(ClientMessage::Chat {
            content: "hi".to_string(),
        })),
        1234,
    );
    assert!(out.reply.is_none());
    match out.publish {
        Some(BroadcastMsg::Chat { username, content, timestamp }) => {
            assert_eq!(username, "alice");
            assert_eq!(content, "hi");
            assert_eq!(timestamp, 1234);
        }
        other => panic!("expected a chat event, got {:?}", other),
    }
}

#[test]
fn test_ping_pong_and_repeated_join() {
    let mut state = SharedState::new();
    let mut session = joined_session(&mut state, "alice");

    let out = handle_active_input(
        &mut session,
        SessionInput::FromClient(RecvOutcome::Msg(ClientMessage::Ping)),
        0,
    );
    assert!(matches!(out.reply, Some(ServerMessage::Pong)));
    assert!(out.publish.is_none());
    assert_eq!(session.phase, SessionPhase::Active);

    let out = handle_active_input(
        &mut session,
        SessionInput::FromClient(RecvOutcome::Msg(ClientMessage::Join {
            username: "other".to_string(),
        })),
        0,
    );
    match out.reply {
        Some(ServerMessage::Error { message }) => assert_eq!(message, "already joined"),
        other => panic!("expected an error, got {:?}", other),
    }
    assert_eq!(session.phase, SessionPhase::Active);
}

#[test]
fn test_heartbeat_timeout_closes_silently() {
    let mut state = SharedState::new();
    let mut session = joined_session(&mut state, "alice");

    // 30 seconds of silence: the wait times out.
    let out = handle_active_input(&mut session, SessionInput::FromClient(RecvOutcome::TimedOut), 0);
    // No application-level error is sent to anyone.
    assert!(out.reply.is_none());
    assert!(out.publish.is_none());
    assert_eq!(session.phase, SessionPhase::Terminating);

    // Teardown publishes the one UserLeft the others see.
    let publish = finish_session(&mut state, &mut session);
    match publish {
        Some(BroadcastMsg::UserLeft { username }) => assert_eq!(username, "alice"),
        other => panic!("expected UserLeft, got {:?}", other),
    }
    assert_eq!(session.phase, SessionPhase::Closed);

    // Tearing the same session down again publishes nothing more.
    let publish = finish_session(&mut state, &mut session);
    assert!(publish.is_none());
}

#[test]
fn test_leave_terminates() {
    let mut state = SharedState::new();
    let mut session = joined_session(&mut state, "alice");
    let out = handle_active_input(
        &mut session,
        SessionInput::FromClient(RecvOutcome::Msg(ClientMessage::Leave)),
        0,
    );
    assert!(out.reply.is_none());
    assert_eq!(session.phase, SessionPhase::Terminating);
}

#[test]
fn test_fanout_events_written_verbatim() {
    let mut state = SharedState::new();
    let mut session = joined_session(&mut state, "alice");

    let out = handle_active_input(
        &mut session,
        SessionInput::FromFanout(BroadcastMsg::Chat {
            username: "bob".to_string(),
            content: "hello".to_string(),
            timestamp: 99,
        }),
        0,
    );
    match out.reply {
        Some(ServerMessage::ChatBroadcast { username, content, timestamp }) => {
            assert_eq!(username, "bob");
            assert_eq!(content, "hello");
            assert_eq!(timestamp, 99);
        }
        other => panic!("expected a chat broadcast, got {:?}", other),
    }
    assert_eq!(session.phase, SessionPhase::Active);

    // Fanout lag is absorbed.
    let out = handle_active_input(&mut session, SessionInput::FanoutLagged, 0);
    assert!(out.reply.is_none());
    assert_eq!(session.phase, SessionPhase::Active);
}

#[test]
fn test_shutdown_drains_all_sessions() {
    let mut state = SharedState::new();
    let mut sessions =
        vec![joined_session(&mut state, "a"), joined_session(&mut state, "b"), joined_session(
            &mut state,
            "c",
        )];
    assert_eq!(state.online_count(), 3);

    // A termination request publishes Shutdown to the fanout; every active
    // session writes it out and self-closes.
    let event = shutdown_event();
    for session in sessions.iter_mut() {
        let out = handle_active_input(session, SessionInput::FromFanout(event.clone()), 0);
        match out.reply {
            Some(ServerMessage::Shutdown { message }) => {
                assert_eq!(message, "server shutting down")
            }
            other => panic!("expected Shutdown, got {:?}", other),
        }
        assert_eq!(session.phase, SessionPhase::Terminating);
        finish_session(&mut state, session);
        state.remove_connection();
    }

    // Every session is gone well before the drain deadline.
    assert_eq!(state.online_count(), 0);
    assert!(drain_complete(&state, 0));
    assert!(state.online_users().is_empty());

    // The deadline alone also ends the drain.
    let mut busy = SharedState::new();
    assert!(busy.try_add_connection());
    assert!(!drain_complete(&busy, DRAIN_DEADLINE_MILLIS - 1));
    assert!(drain_complete(&busy, DRAIN_DEADLINE_MILLIS));
}

#[test]
fn test_admission_reply_is_server_busy() {
    let mut state = SharedState::new();
    for _ in 0..100 {
        assert!(state.try_add_connection());
    }
    match admit_connection(&mut state) {
        Err(ServerMessage::Error { message }) => assert_eq!(message, "server busy"),
        other => panic!("expected the busy error, got {:?}", other),
    }
    assert_eq!(state.online_count(), 100);
}

#[test]
fn test_shutdown_signal_terminates_awaiting_and_active() {
    let mut state = SharedState::new();
    let mut session = joined_session(&mut state, "alice");
    let out = handle_active_input(&mut session, SessionInput::ShutdownSignal, 0);
    assert!(out.reply.is_none());
    assert_eq!(session.phase, SessionPhase::Terminating);

    // A session still in the handshake is cancelled separately: its stream
    // wait ends and it closes without registering.
    let mut waiting = Session::new();
    waiting.start_handshake();
    let out = handle_join_wait(&mut state, &mut waiting, RecvOutcome::Failed);
    assert!(out.reply.is_none());
    assert_eq!(waiting.phase, SessionPhase::Closed);
}
