use chat_core::client::{
    command_to_message, format_timestamp, handle_server_message, interpret_join_reply, ChatClient,
    ConnectionState, NetworkEvent, UiCommand, MAX_MESSAGES,
};
use chat_core::message::{ClientMessage, ServerMessage};

fn connected_client() -> ChatClient {
    let mut c = ChatClient::new();
    c.username = "alice".to_string();
    c.state = ConnectionState::Connecting;
    c.handle_event(
        NetworkEvent::Connected { user_id: 1, online_users: vec!["bob".to_string()] },
        1000,
    );
    c
}

#[test]
fn test_connected_event_moves_to_connected() {
    let c = connected_client();
    assert!(c.is_connected());
    match &c.state {
        ConnectionState::Connected { user_id, username } => {
            assert_eq!(*user_id, 1);
            assert_eq!(username, "alice");
        }
        other => panic!("expected connected, got {:?}", other),
    }
    assert_eq!(c.online_users, vec!["bob".to_string()]);
    assert!(c.error_message.is_none());
    // The client noted the connection in its history.
    assert_eq!(c.messages.len(), 1);
    assert!(c.messages[0].is_system);
    assert_eq!(c.messages[0].content, "connected to server");
}

#[test]
fn test_connected_event_ignored_unless_connecting() {
    let mut c = ChatClient::new();
    c.handle_event(NetworkEvent::Connected { user_id: 1, online_users: vec![] }, 0);
    assert!(!c.is_connected());
    assert!(c.messages.is_empty());
}

#[test]
fn test_user_joined_and_left_track_online_list() {
    let mut c = connected_client();
    c.handle_event(NetworkEvent::UserJoined { username: "carol".to_string() }, 0);
    assert_eq!(c.online_users, vec!["bob".to_string(), "carol".to_string()]);
    // A duplicate join notice does not duplicate the entry.
    c.handle_event(NetworkEvent::UserJoined { username: "carol".to_string() }, 0);
    assert_eq!(c.online_users, vec!["bob".to_string(), "carol".to_string()]);
    c.handle_event(NetworkEvent::UserLeft { username: "bob".to_string() }, 0);
    assert_eq!(c.online_users, vec!["carol".to_string()]);
    let last = c.messages.back().unwrap();
    assert!(last.is_system);
    assert_eq!(last.content, "bob left the room");
}

#[test]
fn test_chat_message_recorded() {
    let mut c = connected_client();
    c.handle_event(
        NetworkEvent::ChatMessage {
            username: "bob".to_string(),
            content: "hi".to_string(),
            timestamp: 42,
        },
        0,
    );
    let last = c.messages.back().unwrap();
    assert!(!last.is_system);
    assert_eq!(last.username, "bob");
    assert_eq!(last.content, "hi");
    assert_eq!(last.timestamp, 42);
}

#[test]
fn test_history_evicts_oldest() {
    let mut c = ChatClient::new();
    for i in 0..(MAX_MESSAGES + 5) {
        c.handle_event(
            NetworkEvent::ChatMessage {
                username: "bob".to_string(),
                content: format!("m{}", i),
                timestamp: 0,
            },
            0,
        );
    }
    assert_eq!(c.messages.len(), MAX_MESSAGES);
    assert_eq!(c.messages.front().unwrap().content, "m5");
    assert_eq!(
        c.messages.back().unwrap().content,
        format!("m{}", MAX_MESSAGES + 4)
    );
}

#[test]
fn test_disconnected_clears_online_users() {
    let mut c = connected_client();
    c.handle_event(NetworkEvent::Disconnected { reason: "server closed".to_string() }, 7);
    assert!(!c.is_connected());
    assert!(c.online_users.is_empty());
    let last = c.messages.back().unwrap();
    assert_eq!(last.content, "disconnected: server closed");
}

#[test]
fn test_error_events_surface() {
    let mut c = connected_client();
    c.handle_event(NetworkEvent::Error { message: "message too long".to_string() }, 0);
    assert_eq!(c.error_message.as_deref(), Some("message too long"));

    let mut c2 = ChatClient::new();
    c2.state = ConnectionState::Connecting;
    c2.handle_event(NetworkEvent::ConnectFailed { reason: "no route".to_string() }, 0);
    assert!(matches!(c2.state, ConnectionState::Disconnected));
    assert_eq!(c2.error_message.as_deref(), Some("no route"));
}

#[test]
fn test_poll_events_applies_in_order() {
    let mut c = ChatClient::new();
    c.username = "alice".to_string();
    c.state = ConnectionState::Connecting;
    let had = c.poll_events(
        vec![
            NetworkEvent::Connected { user_id: 1, online_users: vec![] },
            NetworkEvent::UserJoined { username: "bob".to_string() },
        ],
        0,
    );
    assert!(had);
    assert!(c.is_connected());
    assert_eq!(c.online_users, vec!["bob".to_string()]);
    assert!(!c.poll_events(vec![], 0));
}

#[test]
fn test_validate_username_messages() {
    let mut c = ChatClient::new();
    assert_eq!(c.validate_username().unwrap_err(), "username must not be empty");
    c.username = "a".repeat(21);
    assert_eq!(c.validate_username().unwrap_err(), "username too long");
    c.username = "has space".to_string();
    assert_eq!(
        c.validate_username().unwrap_err(),
        "username has invalid characters"
    );
    c.username = "alice-01_x".to_string();
    assert!(c.validate_username().is_ok());
}

#[test]
fn test_connect_validates_then_goes_connecting() {
    let mut c = ChatClient::new();
    c.username = "bad name".to_string();
    assert!(c.connect().is_none());
    assert!(c.error_message.is_some());
    assert!(matches!(c.state, ConnectionState::Disconnected));

    c.username = "alice".to_string();
    match c.connect() {
        Some(UiCommand::Connect { addr, username }) => {
            assert_eq!(addr, "127.0.0.1:8080");
            assert_eq!(username, "alice");
        }
        other => panic!("expected a connect command, got {:?}", other),
    }
    assert!(matches!(c.state, ConnectionState::Connecting));
    assert!(c.error_message.is_none());
    // Connecting again while not disconnected does nothing.
    assert!(c.connect().is_none());
}

#[test]
fn test_send_message_takes_input() {
    let mut c = connected_client();
    // An empty input sends nothing.
    assert!(c.send_message().is_none());
    c.input_text = "hello".to_string();
    match c.send_message() {
        Some(UiCommand::SendChat { content }) => assert_eq!(content, "hello"),
        other => panic!("expected a chat command, got {:?}", other),
    }
    assert!(c.input_text.is_empty());

    // Not connected: input stays.
    let mut c2 = ChatClient::new();
    c2.input_text = "hello".to_string();
    assert!(c2.send_message().is_none());
    assert_eq!(c2.input_text, "hello");
}

#[test]
fn test_disconnect_only_when_connected() {
    let mut c = connected_client();
    assert!(matches!(c.disconnect(), Some(UiCommand::Disconnect)));
    let mut c2 = ChatClient::new();
    assert!(c2.disconnect().is_none());
}

#[test]
fn test_format_timestamp_values() {
    // Within a minute of now.
    assert_eq!(format_timestamp(100, 130), "just now");
    assert_eq!(format_timestamp(100, 100), "just now");
    // A timestamp in the future is formatted as wall-clock time.
    assert_eq!(format_timestamp(0, 1000), "08:00:00");
    // 3661 seconds past midnight UTC is 09:01:01 at UTC+8.
    assert_eq!(format_timestamp(3661, 1_000_000), "09:01:01");
    // Wrap around midnight: 23:59:59 UTC is 07:59:59 at UTC+8.
    assert_eq!(format_timestamp(86399, 1_000_000), "07:59:59");
}

#[test]
fn test_interpret_join_reply() {
    let step = interpret_join_reply(ServerMessage::Welcome {
        user_id: 3,
        online_users: vec!["bob".to_string()],
    });
    assert!(step.proceed);
    match step.event {
        NetworkEvent::Connected { user_id, online_users } => {
            assert_eq!(user_id, 3);
            assert_eq!(online_users, vec!["bob".to_string()]);
        }
        other => panic!("expected a connected event, got {:?}", other),
    }

    let step = interpret_join_reply(ServerMessage::Error { message: "username taken".to_string() });
    assert!(!step.proceed);
    match step.event {
        NetworkEvent::ConnectFailed { reason } => assert_eq!(reason, "join failed: username taken"),
        other => panic!("expected a failure event, got {:?}", other),
    }

    let step = interpret_join_reply(ServerMessage::Pong);
    assert!(!step.proceed);
    assert!(matches!(step.event, NetworkEvent::ConnectFailed { .. }));
}

#[test]
fn test_handle_server_message_mapping() {
    let step = handle_server_message(ServerMessage::ChatBroadcast {
        username: "bob".to_string(),
        content: "hi".to_string(),
        timestamp: 5,
    });
    assert!(!step.disconnect);
    assert!(matches!(step.event, Some(NetworkEvent::ChatMessage { .. })));

    let step = handle_server_message(ServerMessage::Pong);
    assert!(!step.disconnect);
    assert!(step.event.is_none());

    let step = handle_server_message(ServerMessage::Shutdown {
        message: "server shutting down".to_string(),
    });
    assert!(step.disconnect);
    match step.event {
        Some(NetworkEvent::Disconnected { reason }) => {
            assert_eq!(reason, "server shutdown: server shutting down")
        }
        other => panic!("expected a disconnect event, got {:?}", other),
    }
}

#[test]
fn test_command_to_message() {
    let (m, stop) = command_to_message(UiCommand::SendChat { content: "hi".to_string() });
    assert_eq!(m, Some(ClientMessage::Chat { content: "hi".to_string() }));
    assert!(!stop);

    let (m, stop) = command_to_message(UiCommand::Disconnect);
    assert_eq!(m, Some(ClientMessage::Leave));
    assert!(stop);

    let (m, stop) = command_to_message(UiCommand::Connect {
        addr: "x".to_string(),
        username: "y".to_string(),
    });
    assert!(m.is_none());
    assert!(!stop);
}
