use armature_websocket::{
    ClientReader, ClientWriter, ConnectOutcome, Message, MessageType, ReadOutcome,
    WebSocketClient, WebSocketClientBuilder, WebSocketError, WireMessage, WriterAction,
    WriterEvent,
};
use bytes::Bytes;
use std::time::Duration;
use tokio::sync::mpsc::UnboundedReceiver;

fn connected() -> (WebSocketClient, UnboundedReceiver<Message>, ClientReader) {
    match WebSocketClient::establish(ConnectOutcome::Established) {
        Ok(parts) => parts,
        Err(error) => panic!("unexpected: {:?}", error),
    }
}

#[test]
fn a_builder_needs_a_url() {
    match WebSocketClientBuilder::new().connect() {
        Err(WebSocketError::InvalidUrl(text)) => assert_eq!(text, "URL not provided"),
        _ => panic!("expected an error"),
    }
}

#[test]
fn a_malformed_url_is_refused() {
    match WebSocketClient::connect("not a url") {
        Err(WebSocketError::InvalidUrl(text)) => assert_eq!(text, "relative URL without a base"),
        _ => panic!("expected an error"),
    }
}

#[test]
fn urls_are_normalized() {
    let request = WebSocketClient::connect("WS://Example.COM").unwrap_or_else(|_| panic!());
    assert_eq!(request.url, "ws://example.com/");
    assert_eq!(request.timeout, Duration::from_secs(30));
    assert!(request.config.is_none());
}

#[test]
fn a_limit_holds_for_messages_and_frames() {
    let request = WebSocketClient::builder()
        .url("ws://127.0.0.1:9001")
        .connect_timeout(Duration::from_secs(5))
        .max_message_size(64)
        .connect()
        .unwrap_or_else(|_| panic!());
    assert_eq!(request.url, "ws://127.0.0.1:9001/");
    assert_eq!(request.timeout, Duration::from_secs(5));
    let config = request.config.unwrap();
    assert_eq!(config.max_message_size, Some(64));
    assert_eq!(config.max_frame_size, Some(64));
    assert_eq!(config.read_buffer_size, 128 * 1024);
    assert_eq!(config.write_buffer_size, 128 * 1024);
    assert_eq!(config.max_write_buffer_size, usize::MAX);
    assert!(!config.accept_unmasked_frames);
}

#[test]
fn a_builder_can_be_cloned() {
    let builder = WebSocketClientBuilder::default().url("ws://a/");
    let request = builder.clone().connect().unwrap_or_else(|_| panic!());
    assert_eq!(request.url, "ws://a/");
}

#[test]
fn a_request_comes_of_a_parsed_url() {
    let timeout = Duration::from_secs(1);
    let request = WebSocketClient::request(Ok("ws://b/".to_string()), timeout, None)
        .unwrap_or_else(|_| panic!());
    assert_eq!(request.url, "ws://b/");
    match WebSocketClient::request(Err("empty host".to_string()), timeout, Some(1)) {
        Err(WebSocketError::InvalidUrl(text)) => assert_eq!(text, "empty host"),
        _ => panic!("expected an error"),
    }
}

#[test]
fn connecting_can_fail() {
    assert!(matches!(
        WebSocketClient::establish(ConnectOutcome::TimedOut),
        Err(WebSocketError::Timeout)
    ));
    match WebSocketClient::establish(ConnectOutcome::Failed("refused".to_string())) {
        Err(WebSocketError::Protocol(text)) => assert_eq!(text, "refused"),
        _ => panic!("expected an error"),
    }
}

#[test]
fn a_client_sends_in_order() {
    let (mut client, mut outgoing, _reader) = connected();
    assert!(!client.is_closed());
    client.send(Message::ping(vec![4])).unwrap();
    client.send_text("one").unwrap();
    client.send_binary(Bytes::from(vec![2])).unwrap();
    client.send_json(Ok("3".to_string())).unwrap();
    assert!(outgoing.try_recv().unwrap().is_ping());
    assert_eq!(outgoing.try_recv().unwrap().as_bytes(), b"one");
    assert_eq!(outgoing.try_recv().unwrap().as_bytes(), [2]);
    assert_eq!(outgoing.try_recv().unwrap().as_bytes(), b"3");
    assert!(matches!(
        client.send_json(Err("bad".to_string())),
        Err(WebSocketError::Serialization(_))
    ));
    assert!(outgoing.try_recv().is_err());
}

#[test]
fn closing_again_and_again_sends_one_close_message() {
    let (mut client, mut outgoing, _reader) = connected();
    for _ in 0..8 {
        client.close();
    }
    assert!(client.is_closed());
    assert!(outgoing.try_recv().unwrap().is_close());
    assert!(outgoing.try_recv().is_err());
    assert!(matches!(
        client.send_text("late"),
        Err(WebSocketError::ConnectionClosed)
    ));
}

#[test]
fn a_client_closed_from_outside_sends_nothing() {
    let (mut client, mut outgoing, mut reader) = connected();
    assert!(!reader.reader_task(&mut client, ReadOutcome::Ended));
    assert!(client.is_closed());
    client.close();
    assert!(outgoing.try_recv().is_err());
    assert!(client.is_closed());
}

#[test]
fn a_dead_queue_is_a_send_error() {
    let (mut client, outgoing, _reader) = connected();
    drop(outgoing);
    match client.send_text("lost") {
        Err(WebSocketError::Send(text)) => assert_eq!(text, "channel closed"),
        other => panic!("unexpected: {:?}", other),
    }
}

fn frame(text: &str) -> ReadOutcome {
    ReadOutcome::Frame(WireMessage::Text(text.to_string()))
}

#[test]
fn what_is_read_can_be_received() {
    let (mut client, _outgoing, mut reader) = connected();
    assert!(client.try_recv().is_none());
    assert!(reader.reader_task(&mut client, frame("x")));
    let ping = WireMessage::Ping(Bytes::from(vec![7]));
    assert!(reader.reader_task(&mut client, ReadOutcome::Frame(ping)));
    assert!(!client.is_closed());
    assert!(!reader.reader_task(&mut client, ReadOutcome::Frame(WireMessage::Close)));
    assert!(client.is_closed());

    let first = client.try_recv().unwrap();
    assert_eq!(first.message_type, MessageType::Text);
    assert_eq!(first.as_bytes(), b"x");
    let second = client.receiver().try_recv().unwrap();
    assert!(second.is_ping());
    assert_eq!(second.as_bytes(), [7]);
    assert!(client.try_recv().unwrap().is_close());
    assert!(client.try_recv().is_none());
}

#[test]
fn reading_ends_with_an_error() {
    let (mut client, _outgoing, mut reader) = connected();
    assert!(!reader.reader_task(&mut client, ReadOutcome::Failed("reset".to_string())));
    assert!(client.is_closed());
    assert!(client.try_recv().is_none());
}

#[test]
fn reading_ends_when_nobody_listens() {
    let (client, _outgoing, mut reader) = connected();
    drop(client);
    let (mut other, _other_outgoing, _other_reader) = connected();
    assert!(!reader.reader_task(&mut other, frame("hi")));
    assert!(other.is_closed());
    assert!(other.try_recv().is_none());
}

#[test]
fn what_is_sent_goes_to_the_writer() {
    let (mut client, mut outgoing, _reader) = connected();
    let mut writer = ClientWriter::new();
    client.send_text("hi").unwrap();
    let queued = outgoing.try_recv().ok();
    match writer.writer_task(&mut client, WriterEvent::Queue(queued)) {
        WriterAction::Write(WireMessage::Text(text)) => assert_eq!(text, "hi"),
        _ => panic!("expected a frame"),
    }
    assert!(client.try_recv().is_none());
}

#[test]
fn a_client_writer_closes_the_sink_and_then_the_client() {
    // After a write that fails.
    let (mut client, _outgoing, _reader) = connected();
    let mut writer = ClientWriter::new();
    writer.writer_task(&mut client, WriterEvent::Queue(Some(Message::text("hi"))));
    assert!(matches!(
        writer.writer_task(&mut client, WriterEvent::Written(Err("broken".to_string()))),
        WriterAction::CloseSink
    ));
    assert!(!client.is_closed());
    assert!(matches!(
        writer.writer_task(&mut client, WriterEvent::SinkClosed),
        WriterAction::Finished
    ));
    assert!(client.is_closed());

    // After a close frame.
    let (mut client, _outgoing, _reader) = connected();
    let mut writer = ClientWriter::new();
    assert!(matches!(
        writer.writer_task(&mut client, WriterEvent::Queue(Some(Message::close()))),
        WriterAction::Write(WireMessage::Close)
    ));
    assert!(matches!(
        writer.writer_task(&mut client, WriterEvent::Written(Ok(()))),
        WriterAction::CloseSink
    ));
    writer.writer_task(&mut client, WriterEvent::SinkClosed);
    assert!(client.is_closed());

    // After the end of the queue.
    let (mut client, _outgoing, _reader) = connected();
    let mut writer = ClientWriter::new();
    assert!(matches!(
        writer.writer_task(&mut client, WriterEvent::Queue(None)),
        WriterAction::CloseSink
    ));
    writer.writer_task(&mut client, WriterEvent::SinkClosed);
    assert!(client.is_closed());
}
