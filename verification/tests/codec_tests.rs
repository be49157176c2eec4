use chat_core::codec::{
    decode_client_payload, decode_server_payload, encode_client_payload, encode_server_payload,
    FrameReader, FrameWriter,
};
use chat_core::constants::{MAX_FRAME_SIZE, PROTOCOL_VERSION};
use chat_core::error::ProtocolError;
use chat_core::message::{ClientMessage, ServerMessage};

#[test]
fn test_frame_roundtrip() {
    let mut writer = FrameWriter::new();
    let msg = ClientMessage::Join { username: "test_user".to_string() };
    writer.write_frame(&encode_client_payload(&msg).unwrap()).unwrap();
    let buffer = writer.take_bytes();

    let mut reader = FrameReader::new();
    reader.feed(&buffer);
    let msg2: ClientMessage = reader.recv_client().unwrap().unwrap();
    assert_eq!(msg2, ClientMessage::Join { username: "test_user".to_string() });
}

#[test]
fn test_server_message_frame() {
    let mut writer = FrameWriter::new();
    let msg = ServerMessage::ChatBroadcast {
        username: "alice".to_string(),
        content: "Hello, world!".to_string(),
        timestamp: 1234567890,
    };
    writer.send_server(&msg).unwrap();
    let buffer = writer.take_bytes();

    let mut reader = FrameReader::new();
    reader.feed(&buffer);
    let msg: ServerMessage = reader.recv_server().unwrap().unwrap();
    match msg {
        ServerMessage::ChatBroadcast { username, content, timestamp } => {
            assert_eq!(username, "alice");
            assert_eq!(content, "Hello, world!");
            assert_eq!(timestamp, 1234567890);
        }
        _ => panic!("Unexpected message type"),
    }
}

#[test]
fn test_version_mismatch_rejected() {
    let mut reader = FrameReader::new();
    // A frame whose version byte is wrong, whatever the rest holds.
    reader.feed(&[2u8, 0, 0, 0, 1, 42]);
    match reader.next_frame() {
        Err(ProtocolError::VersionMismatch { expected, actual }) => {
            assert_eq!(expected, PROTOCOL_VERSION);
            assert_eq!(actual, 2);
        }
        other => panic!("expected a version mismatch, got {:?}", other),
    }
}

#[test]
fn test_version_checked_before_payload_arrives() {
    let mut reader = FrameReader::new();
    // Only the version byte is in; the mismatch is reported without reading
    // further.
    reader.feed(&[7u8]);
    assert!(matches!(
        reader.next_frame(),
        Err(ProtocolError::VersionMismatch { actual: 7, .. })
    ));
}

#[test]
fn test_oversized_payload_rejected_before_writing() {
    let mut writer = FrameWriter::new();
    let payload = vec![0u8; MAX_FRAME_SIZE + 1];
    match writer.write_frame(&payload) {
        Err(ProtocolError::FrameTooLarge { size, max }) => {
            assert_eq!(size, MAX_FRAME_SIZE + 1);
            assert_eq!(max, MAX_FRAME_SIZE);
        }
        other => panic!("expected a frame size error, got {:?}", other),
    }
    // Nothing reached the outbound queue.
    assert!(writer.take_bytes().is_empty());
}

#[test]
fn test_oversized_message_rejected_by_encoder() {
    let msg = ClientMessage::Chat { content: "x".repeat(MAX_FRAME_SIZE) };
    assert!(matches!(
        encode_client_payload(&msg),
        Err(ProtocolError::FrameTooLarge { .. })
    ));
}

#[test]
fn test_oversized_header_rejected() {
    let mut reader = FrameReader::new();
    // Version ok, but the header announces 70000 bytes.
    let n: u32 = 70000;
    let mut bytes = vec![PROTOCOL_VERSION];
    bytes.extend_from_slice(&n.to_be_bytes());
    reader.feed(&bytes);
    match reader.next_frame() {
        Err(ProtocolError::FrameTooLarge { size, max }) => {
            assert_eq!(size, 70000);
            assert_eq!(max, MAX_FRAME_SIZE);
        }
        other => panic!("expected a frame size error, got {:?}", other),
    }
}

#[test]
fn test_partial_frames_ask_for_more() {
    let mut writer = FrameWriter::new();
    writer.send_client(&ClientMessage::Ping).unwrap();
    let buffer = writer.take_bytes();

    let mut reader = FrameReader::new();
    reader.feed(&buffer[..3]);
    assert!(matches!(reader.recv_client(), Ok(None)));
    reader.feed(&buffer[3..]);
    assert_eq!(reader.recv_client().unwrap().unwrap(), ClientMessage::Ping);
    // And nothing more.
    assert!(matches!(reader.recv_client(), Ok(None)));
}

#[test]
fn test_two_frames_in_one_feed() {
    let mut writer = FrameWriter::new();
    writer.send_client(&ClientMessage::Ping).unwrap();
    writer.send_client(&ClientMessage::Leave).unwrap();
    let buffer = writer.take_bytes();

    let mut reader = FrameReader::new();
    reader.feed(&buffer);
    assert_eq!(reader.recv_client().unwrap().unwrap(), ClientMessage::Ping);
    assert_eq!(reader.recv_client().unwrap().unwrap(), ClientMessage::Leave);
    assert!(matches!(reader.recv_client(), Ok(None)));
}

#[test]
fn test_malformed_payload_is_serialization_error() {
    // Tag says Join, the length prefix says one byte, and that byte is not
    // valid UTF-8.
    let payload = vec![0u8, 0, 0, 0, 1, 0xff];
    assert!(matches!(
        decode_client_payload(&payload),
        Err(ProtocolError::Serialization)
    ));
    // An unknown tag is rejected too.
    assert!(matches!(
        decode_server_payload(&[99u8]),
        Err(ProtocolError::Serialization)
    ));
    // As are trailing bytes after a complete message.
    assert!(matches!(
        decode_client_payload(&[3u8, 0]),
        Err(ProtocolError::Serialization)
    ));
}

#[test]
fn test_welcome_roundtrip_with_user_list() {
    let msg = ServerMessage::Welcome {
        user_id: 7,
        online_users: vec!["alice".to_string(), "bob".to_string(), "carol".to_string()],
    };
    let bytes = encode_server_payload(&msg).unwrap();
    assert_eq!(decode_server_payload(&bytes).unwrap(), msg);

    let empty = ServerMessage::Welcome { user_id: 1, online_users: vec![] };
    let bytes = encode_server_payload(&empty).unwrap();
    assert_eq!(decode_server_payload(&bytes).unwrap(), empty);
}

#[test]
fn test_multibyte_content_roundtrip() {
    let msg = ClientMessage::Chat { content: "héllo → 🦀 ですね".to_string() };
    let bytes = encode_client_payload(&msg).unwrap();
    assert_eq!(decode_client_payload(&bytes).unwrap(), msg);
}

#[test]
fn test_all_server_variants_roundtrip() {
    let msgs = vec![
        ServerMessage::UserJoined { username: "dave".to_string() },
        ServerMessage::UserLeft { username: "dave".to_string() },
        ServerMessage::Error { message: "username taken".to_string() },
        ServerMessage::Pong,
        ServerMessage::Shutdown { message: "server shutting down".to_string() },
    ];
    for msg in msgs {
        let bytes = encode_server_payload(&msg).unwrap();
        assert_eq!(decode_server_payload(&bytes).unwrap(), msg);
    }
}
