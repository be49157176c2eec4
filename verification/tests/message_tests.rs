use chat_core::codec::{
    decode_client_payload, decode_server_payload, encode_client_payload, encode_server_payload,
};
use chat_core::constants::{MAX_MESSAGE_LEN, MAX_USERNAME_LEN};
use chat_core::error::ProtocolError;
use chat_core::message::{ClientMessage, ServerMessage};

#[test]
fn test_client_message_serialize() {
    let msg = ClientMessage::Join { username: "alice".to_string() };
    let bytes = encode_client_payload(&msg).unwrap();
    let decoded: ClientMessage = decode_client_payload(&bytes).unwrap();
    assert_eq!(msg, decoded);
}

#[test]
fn test_server_message_serialize() {
    let msg = ServerMessage::ChatBroadcast {
        username: "bob".to_string(),
        content: "Hello!".to_string(),
        timestamp: 1234567890,
    };
    let bytes = encode_server_payload(&msg).unwrap();
    let decoded: ServerMessage = decode_server_payload(&bytes).unwrap();
    assert_eq!(msg, decoded);
}

#[test]
fn test_validate_username_empty() {
    let msg = ClientMessage::Join { username: "".to_string() };
    assert!(msg.validate().is_err());
}

#[test]
fn test_validate_username_too_long() {
    let msg = ClientMessage::Join { username: "a".repeat(MAX_USERNAME_LEN + 1) };
    assert!(msg.validate().is_err());
}

#[test]
fn test_validate_username_ok() {
    let msg = ClientMessage::Join { username: "valid_user".to_string() };
    assert!(msg.validate().is_ok());
}

#[test]
fn test_validate_message_too_long() {
    let msg = ClientMessage::Chat { content: "a".repeat(MAX_MESSAGE_LEN + 1) };
    assert!(msg.validate().is_err());
}

#[test]
fn test_validate_message_ok() {
    let msg = ClientMessage::Chat { content: "Hello!".to_string() };
    assert!(msg.validate().is_ok());
}

#[test]
fn test_validate_username_bad_character() {
    let msg = ClientMessage::Join { username: "bad name".to_string() };
    match msg.validate() {
        Err(ProtocolError::UsernameTooLong { len, max }) => {
            assert_eq!(len, 8);
            assert_eq!(max, MAX_USERNAME_LEN);
        }
        other => panic!("expected a username error, got {:?}", other),
    }
}

#[test]
fn test_validate_message_error_carries_lengths() {
    let msg = ClientMessage::Chat { content: "x".repeat(5000) };
    match msg.validate() {
        Err(ProtocolError::MessageTooLong { len, max }) => {
            assert_eq!(len, 5000);
            assert_eq!(max, MAX_MESSAGE_LEN);
        }
        other => panic!("expected a message error, got {:?}", other),
    }
}

#[test]
fn test_validate_accepts_hyphen_and_underscore() {
    let msg = ClientMessage::Join { username: "a-b_c9".to_string() };
    assert!(msg.validate().is_ok());
    assert!(ClientMessage::Leave.validate().is_ok());
    assert!(ClientMessage::Ping.validate().is_ok());
}

#[test]
fn test_error_descriptions() {
    assert_eq!(
        ProtocolError::VersionMismatch { expected: 1, actual: 2 }.describe(),
        "protocol version mismatch"
    );
    assert_eq!(
        ProtocolError::FrameTooLarge { size: 9000, max: 8192 }.describe(),
        "frame too large"
    );
    assert_eq!(ProtocolError::ConnectionClosed.describe(), "connection closed");
    assert_eq!(ProtocolError::ConnectionTimeout.describe(), "connection timeout");
    assert_eq!(ProtocolError::Serialization.describe(), "malformed payload");
    assert_eq!(ProtocolError::Io.describe(), "io error");
    assert_eq!(
        ProtocolError::UsernameTooLong { len: 30, max: 20 }.describe(),
        "invalid username"
    );
    assert_eq!(
        ProtocolError::MessageTooLong { len: 5000, max: 4096 }.describe(),
        "message too long"
    );
}
