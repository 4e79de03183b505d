use armature_websocket::{
    Connection, ConnectionState, ConnectionWriter, Links, Message, MessageType, SocketAddr,
    WebSocketError, WireMessage, WriterAction, WriterEvent,
};
use bytes::Bytes;
use tokio::sync::mpsc::{self, UnboundedReceiver};

fn open(links: &mut Links) -> (Connection, UnboundedReceiver<Message>) {
    let (tx, rx) = mpsc::unbounded_channel();
    let address = SocketAddr::V4 {
        ipv4: 0x7f00_0001,
        port: 4000,
    };
    (Connection::new(links, "id".to_string(), Some(address), tx), rx)
}

#[test]
fn a_new_connection_is_open() {
    let mut links = Links::new();
    let (connection, _rx) = open(&mut links);
    assert_eq!(connection.state(&links), ConnectionState::Open);
    assert!(connection.is_open(&links));
    assert_eq!(connection.id, "id");
    assert_eq!(
        connection.remote_addr,
        Some(SocketAddr::V4 {
            ipv4: 0x7f00_0001,
            port: 4000
        })
    );
}

#[test]
fn messages_arrive_in_order() {
    let mut links = Links::new();
    let (connection, mut rx) = open(&mut links);
    connection.send_text(&mut links, "one").unwrap();
    connection
        .send_binary(&mut links, Bytes::from(vec![1, 2]))
        .unwrap();
    connection
        .send_json(&mut links, Ok("{\"n\":3}".to_string()))
        .unwrap();

    let one = rx.try_recv().unwrap();
    assert_eq!(one.message_type, MessageType::Text);
    assert_eq!(one.as_bytes(), b"one");
    let two = rx.try_recv().unwrap();
    assert_eq!(two.message_type, MessageType::Binary);
    assert_eq!(two.as_bytes(), [1, 2]);
    let three = rx.try_recv().unwrap();
    assert_eq!(three.message_type, MessageType::Text);
    assert_eq!(three.as_bytes(), b"{\"n\":3}");
}

#[test]
fn what_cannot_be_serialized_is_not_sent() {
    let mut links = Links::new();
    let (connection, mut rx) = open(&mut links);
    match connection.send_json(&mut links, Err("no such key".to_string())) {
        Err(WebSocketError::Serialization(text)) => assert_eq!(text, "no such key"),
        other => panic!("unexpected: {:?}", other),
    }
    assert!(rx.try_recv().is_err());
}

#[test]
fn a_closed_connection_refuses_messages() {
    let mut links = Links::new();
    let (connection, mut rx) = open(&mut links);
    connection.close(&mut links);
    assert_eq!(connection.state(&links), ConnectionState::Closing);
    assert!(matches!(
        connection.send_text(&mut links, "late"),
        Err(WebSocketError::ConnectionClosed)
    ));
    assert!(rx.try_recv().unwrap().is_close());
    assert!(rx.try_recv().is_err());
}

#[test]
fn every_close_tells_the_peer() {
    let mut links = Links::new();
    let (connection, mut rx) = open(&mut links);
    connection.close(&mut links);
    connection.close(&mut links);
    assert!(rx.try_recv().unwrap().is_close());
    assert!(rx.try_recv().unwrap().is_close());
}

#[test]
fn handles_share_state_and_queue() {
    let mut links = Links::new();
    let (connection, mut rx) = open(&mut links);
    let other = connection.clone();
    connection.send_text(&mut links, "one").unwrap();
    other.send_text(&mut links, "two").unwrap();
    assert_eq!(rx.try_recv().unwrap().as_bytes(), b"one");
    assert_eq!(rx.try_recv().unwrap().as_bytes(), b"two");

    other.set_state(&mut links, ConnectionState::Closed);
    assert_eq!(connection.state(&links), ConnectionState::Closed);
}

#[test]
fn connections_do_not_disturb_each_other() {
    let mut links = Links::new();
    let (one, _rx_one) = open(&mut links);
    let (two, mut rx_two) = open(&mut links);
    one.close(&mut links);
    assert!(two.is_open(&links));
    two.send_text(&mut links, "still here").unwrap();
    assert_eq!(rx_two.try_recv().unwrap().as_bytes(), b"still here");
}

#[test]
fn a_dead_queue_is_an_error_for_good() {
    let mut links = Links::new();
    let (connection, rx) = open(&mut links);
    drop(rx);
    for _ in 0..2 {
        match connection.send_text(&mut links, "lost") {
            Err(WebSocketError::Send(text)) => assert_eq!(text, "channel closed"),
            other => panic!("unexpected: {:?}", other),
        }
    }
    assert!(connection.is_open(&links));
}

#[test]
fn a_released_connection_keeps_its_state() {
    let mut links = Links::new();
    let (connection, mut rx) = open(&mut links);
    let other = connection.clone();
    assert!(links.has_room());
    connection.set_state(&mut links, ConnectionState::Closed);
    links.release(&connection);
    assert_eq!(other.state(&links), ConnectionState::Closed);
    assert!(matches!(
        connection.send_text(&mut links, "late"),
        Err(WebSocketError::ConnectionClosed)
    ));
    // The handles still share a state.
    connection.close(&mut links);
    assert_eq!(other.state(&links), ConnectionState::Closing);
    assert!(rx.try_recv().is_err());
    // A new connection does not come back under the old handle.
    let (_other, _rx_other) = open(&mut links);
    assert_eq!(connection.state(&links), ConnectionState::Closing);
}

#[test]
fn an_open_connection_without_its_queue_refuses() {
    let mut links = Links::new();
    let (connection, _rx) = open(&mut links);
    links.release(&connection);
    assert!(connection.is_open(&links));
    match connection.send_text(&mut links, "lost") {
        Err(WebSocketError::Send(text)) => assert_eq!(text, "channel closed"),
        other => panic!("unexpected: {:?}", other),
    }
}

#[test]
fn closing_one_handle_closes_the_other() {
    let mut links = Links::new();
    let (connection, _rx) = open(&mut links);
    let other = connection.clone();
    other.close(&mut links);
    assert_eq!(connection.state(&links), ConnectionState::Closing);
    assert!(matches!(
        connection.send_text(&mut links, "late"),
        Err(WebSocketError::ConnectionClosed)
    ));
}

fn text(frame: &str) -> WriterEvent {
    WriterEvent::Queue(Some(Message::text(frame)))
}

#[test]
fn a_writer_drops_what_cannot_be_sent_and_goes_on() {
    let mut writer = ConnectionWriter::new();
    let broken = Message {
        message_type: MessageType::Text,
        payload: Bytes::from(vec![0xff, 0xfe]),
    };
    assert!(matches!(
        writer.run(WriterEvent::Queue(Some(broken))),
        WriterAction::Receive
    ));
    match writer.run(text("fine")) {
        WriterAction::Write(WireMessage::Text(frame)) => assert_eq!(frame, "fine"),
        _ => panic!("expected a text frame"),
    }
    assert!(matches!(
        writer.run(WriterEvent::Written(Ok(()))),
        WriterAction::Receive
    ));
}

#[test]
fn a_writer_stops_after_a_close_frame() {
    let mut writer = ConnectionWriter::new();
    assert!(matches!(
        writer.run(WriterEvent::Queue(Some(Message::close()))),
        WriterAction::Write(WireMessage::Close)
    ));
    assert!(matches!(
        writer.run(WriterEvent::Written(Ok(()))),
        WriterAction::CloseSink
    ));
}

#[test]
fn a_writer_ends_with_its_queue() {
    let mut writer = ConnectionWriter::new();
    assert!(matches!(
        writer.run(WriterEvent::Queue(None)),
        WriterAction::CloseSink
    ));
    assert!(matches!(
        writer.run(WriterEvent::SinkClosed),
        WriterAction::Finished
    ));
}

#[test]
fn a_failed_write_is_a_protocol_error() {
    let mut writer = ConnectionWriter::new();
    writer.run(text("fine"));
    match writer.run(WriterEvent::Written(Err("broken pipe".to_string()))) {
        WriterAction::Fail(WebSocketError::Protocol(reason)) => assert_eq!(reason, "broken pipe"),
        _ => panic!("expected a failure"),
    }
}
