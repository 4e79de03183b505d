use armature_websocket::{InvalidTextPayload, Message, MessageType, WebSocketError, WireMessage};
use bytes::Bytes;

#[test]
fn constructors_set_type_and_payload() {
    let text = Message::text("h\u{e9}llo");
    assert!(text.is_text() && !text.is_binary());
    assert_eq!(text.as_bytes(), "h\u{e9}llo".as_bytes());
    let binary = Message::binary(Bytes::from(vec![0, 255]));
    assert!(binary.is_binary() && !binary.is_text());
    assert_eq!(binary.as_bytes(), [0, 255]);
    let ping = Message::ping(vec![1]);
    assert!(ping.is_ping() && !ping.is_pong());
    assert_eq!(ping.as_bytes(), [1]);
    let pong = Message::pong(vec![2, 3]);
    assert!(pong.is_pong() && !pong.is_ping());
    assert_eq!(pong.as_bytes(), [2, 3]);
    let close = Message::close();
    assert!(close.is_close() && !close.is_text());
    assert!(close.as_bytes().is_empty());
}

#[test]
fn json_is_sent_as_text() {
    let message = Message::json(Ok("[1,2]".to_string())).unwrap();
    assert_eq!(message.message_type, MessageType::Text);
    assert_eq!(message.as_bytes(), b"[1,2]");
    match Message::json(Err("cyclic".to_string())) {
        Err(WebSocketError::Serialization(text)) => assert_eq!(text, "cyclic"),
        other => panic!("unexpected: {:?}", other),
    }
}

#[test]
fn a_clone_is_the_same_message() {
    let message = Message::text("twice");
    let copy = message.clone();
    assert_eq!(copy.message_type, message.message_type);
    assert_eq!(copy.as_bytes(), message.as_bytes());
}

#[test]
fn messages_survive_the_wire() {
    for message in [
        Message::text("plain"),
        Message::binary(Bytes::from(vec![9, 8])),
        Message::ping(vec![7]),
        Message::pong(vec![6]),
        Message::close(),
    ] {
        let copy = message.clone();
        let back = Message::from_wire(message.into_wire().unwrap());
        assert_eq!(back.message_type, copy.message_type);
        assert_eq!(back.as_bytes(), copy.as_bytes());
    }
}

#[test]
fn text_frames_hold_text() {
    match Message::text("\u{1f980}").into_wire() {
        Ok(WireMessage::Text(text)) => assert_eq!(text, "\u{1f980}"),
        other => panic!("unexpected: {:?}", other),
    }
    assert!(WireMessage::Close.is_close());
    assert!(!WireMessage::Text(String::new()).is_close());
}

#[test]
fn text_has_to_be_utf8() {
    let broken = Message {
        message_type: MessageType::Text,
        payload: Bytes::from(vec![0xc3, 0x28]),
    };
    assert_eq!(broken.into_wire().err(), Some(InvalidTextPayload));
    // The same bytes are fine in a binary message.
    let binary = Message::binary(Bytes::from(vec![0xc3, 0x28]));
    assert!(binary.into_wire().is_ok());
}

#[test]
fn errors_describe_themselves() {
    let cases = [
        (WebSocketError::Connection("x".to_string()), "Connection error: x"),
        (WebSocketError::Protocol("x".to_string()), "Protocol error: x"),
        (WebSocketError::Io("x".to_string()), "IO error: x"),
        (WebSocketError::Serialization("x".to_string()), "Serialization error: x"),
        (WebSocketError::ConnectionNotFound("x".to_string()), "Connection not found: x"),
        (WebSocketError::RoomNotFound("x".to_string()), "Room not found: x"),
        (WebSocketError::ConnectionClosed, "Connection closed"),
        (WebSocketError::Send("x".to_string()), "Failed to send message: x"),
        (WebSocketError::Timeout, "Operation timed out"),
        (WebSocketError::Tls("x".to_string()), "TLS error: x"),
        (WebSocketError::InvalidUrl("x".to_string()), "Invalid URL: x"),
        (WebSocketError::Server("x".to_string()), "Server error: x"),
    ];
    for (error, text) in cases {
        assert_eq!(error.to_text(), text);
    }
}
