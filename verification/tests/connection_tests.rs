use chat_core::codec::FrameWriter;
use chat_core::connection::Connection;
use chat_core::message::{ClientMessage, ServerMessage};

/// The byte stream of one side becomes the other side's inbound bytes.
fn pipe(from: &mut Connection, to: &mut Connection) {
    let bytes = from.writer.take_bytes();
    to.reader.feed(&bytes);
}

#[test]
fn test_connection_send_recv() {
    let mut client = Connection::new();
    let mut server = Connection::new();

    // Client sends a message.
    client
        .writer
        .send_client(&ClientMessage::Join { username: "test".to_string() })
        .unwrap();
    pipe(&mut client, &mut server);

    // Server receives it.
    let msg: ClientMessage = server.reader.recv_client().unwrap().unwrap();
    assert!(matches!(msg, ClientMessage::Join { .. }));

    // Server replies.
    server
        .writer
        .send_server(&ServerMessage::Welcome { user_id: 1, online_users: vec![] })
        .unwrap();
    pipe(&mut server, &mut client);

    // Client receives the response.
    let msg: ServerMessage = client.reader.recv_server().unwrap().unwrap();
    assert!(matches!(msg, ServerMessage::Welcome { .. }));
}

#[test]
fn test_connection_split_carries_buffers() {
    let mut c = Connection::new();
    c.writer.send_client(&ClientMessage::Ping).unwrap();
    let (reader, mut writer) = c.split();
    let bytes = writer.take_bytes();
    assert!(!bytes.is_empty());

    let mut c2 = Connection::from_parts(reader, FrameWriter::new());
    c2.reader.feed(&bytes);
    assert_eq!(c2.reader.recv_client().unwrap().unwrap(), ClientMessage::Ping);
}
