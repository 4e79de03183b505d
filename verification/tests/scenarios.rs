use armature_websocket::{
    ConnectOutcome, ConnectionState, Links, Message, MessageType, ReadOutcome, RoomManager,
    Session, SessionAction, SessionEvent, WebSocketClient, WebSocketError, WebSocketServer,
    WireMessage,
};
use std::io::Cursor;
use std::time::Duration;
use tokio::sync::mpsc::UnboundedReceiver;
use tungstenite::protocol::{Role, WebSocket, WebSocketConfig};

/// Milliseconds, as the time of a session.
fn millis(count: u64) -> u128 {
    Duration::from_millis(count).as_nanos()
}

/// A server's side of a connection, with a clock of its own.
struct Peer {
    rooms: RoomManager,
    links: Links,
    session: Session,
    queue: UnboundedReceiver<Message>,
    heartbeat: u128,
    timeout: u128,
    next_beat: u128,
    delivered: Vec<Message>,
    closed_at: Option<u128>,
}

impl Peer {
    fn connect(heartbeat: Duration, timeout: Duration) -> Peer {
        let config = WebSocketServer::<()>::builder()
            .heartbeat_interval(heartbeat)
            .connection_timeout(timeout)
            .build(())
            .config()
            .clone();
        let mut rooms = RoomManager::new();
        let mut links = Links::new();
        let (session, queue) = Session::accept(&mut rooms, &mut links, None);
        let mut peer = Peer {
            rooms,
            links,
            session,
            queue,
            heartbeat: config.heartbeat_interval.as_nanos(),
            timeout: config.connection_timeout.as_nanos(),
            next_beat: config.heartbeat_interval.as_nanos(),
            delivered: Vec::new(),
            closed_at: None,
        };
        let action = peer.step(SessionEvent::ConnectTold { at: 0 });
        assert!(matches!(action, SessionAction::Wait));
        peer
    }

    fn step(&mut self, event: SessionEvent) -> SessionAction {
        self.session.step(&mut self.rooms, &mut self.links, event)
    }

    fn handle(&mut self, now: u128, event: SessionEvent) {
        match self.step(event) {
            SessionAction::TellMessage { message } => self.delivered.push(message),
            SessionAction::AwaitWriter => self.closed_at = Some(now),
            _ => {}
        }
    }

    /// Lets time pass in which nothing is read.
    fn advance_to(&mut self, now: u128) {
        while self.closed_at.is_none() {
            let deadline = self.session.idle_deadline(self.timeout);
            let next = deadline.min(self.next_beat);
            if next > now {
                break;
            }
            if next == self.next_beat {
                self.next_beat += self.heartbeat;
                self.handle(next, SessionEvent::HeartbeatDue);
            } else {
                self.handle(next, SessionEvent::IdleElapsed);
            }
        }
    }

    fn read(&mut self, at: u128, outcome: ReadOutcome) {
        self.advance_to(at);
        self.handle(at, SessionEvent::Read { at, outcome });
    }

    fn next_queued(&mut self) -> Option<Message> {
        self.queue.try_recv().ok()
    }
}

/// The bytes with which one side sends a text.
fn text_on_the_wire(role: Role, text: String) -> Vec<u8> {
    let mut socket = WebSocket::from_raw_socket(Cursor::new(Vec::new()), role, None);
    socket.send(tungstenite::Message::text(text)).unwrap();
    socket.get_ref().get_ref().clone()
}

/// What the other side reads of them, under its settings.
fn read_from_the_wire(role: Role, config: WebSocketConfig, bytes: Vec<u8>) -> ReadOutcome {
    let mut socket = WebSocket::from_raw_socket(Cursor::new(bytes), role, Some(config));
    match socket.read() {
        Ok(tungstenite::Message::Text(text)) => {
            ReadOutcome::Frame(WireMessage::Text(text.as_str().to_string()))
        }
        Ok(_) => ReadOutcome::Ended,
        Err(error) => ReadOutcome::Failed(error.to_string()),
    }
}

#[test]
fn enforces_max_message_size() {
    let server = WebSocketServer::<()>::builder()
        .max_message_size(16)
        .heartbeat_interval(Duration::from_secs(3600))
        .connection_timeout(Duration::from_secs(3600))
        .build(());
    let limits = server.config().websocket_config();
    assert_eq!(limits.max_message_size, Some(16));

    // Well beyond the limit of 16 bytes.
    let big = text_on_the_wire(Role::Client, "x".repeat(256));
    let outcome = read_from_the_wire(Role::Server, limits, big);
    assert!(matches!(outcome, ReadOutcome::Failed(_)));

    let mut peer = Peer::connect(Duration::from_secs(3600), Duration::from_secs(3600));
    let action = peer.step(SessionEvent::Read { at: 1, outcome });
    assert!(matches!(
        action,
        SessionAction::TellError {
            error: WebSocketError::Protocol(_)
        }
    ));
    peer.handle(1, SessionEvent::ErrorTold);
    assert!(
        peer.closed_at.is_some(),
        "server should close the connection when a message exceeds max_message_size"
    );
    assert!(peer.next_queued().unwrap().is_close());
    assert!(
        peer.delivered.is_empty(),
        "oversized message must never reach on_message"
    );

    // One that fits is read.
    let small = text_on_the_wire(Role::Client, "x".repeat(16));
    assert!(matches!(
        read_from_the_wire(Role::Server, limits, small),
        ReadOutcome::Frame(WireMessage::Text(_))
    ));
}

#[test]
fn closes_idle_connection_after_timeout() {
    let mut peer = Peer::connect(Duration::from_secs(3600), Duration::from_millis(200));
    peer.advance_to(millis(199));
    assert!(peer.closed_at.is_none());
    peer.advance_to(millis(250));
    assert_eq!(peer.closed_at, Some(millis(200)));
    assert!(peer.next_queued().unwrap().is_close());
}

#[test]
fn closes_idle_connection_via_timeout_independent_of_heartbeat() {
    let mut peer = Peer::connect(Duration::from_millis(50), Duration::from_millis(90));
    peer.advance_to(millis(120));
    assert_eq!(
        peer.closed_at,
        Some(millis(90)),
        "expected connection_timeout alone to close the idle connection before \
         the missed-heartbeat path could"
    );
    assert_eq!(peer.session.missed_heartbeats(), 1);
    assert!(peer.next_queued().unwrap().is_ping());
    assert!(peer.next_queued().unwrap().is_close());
    assert!(peer.next_queued().is_none());
}

#[test]
fn sends_heartbeat_ping_on_interval() {
    let mut peer = Peer::connect(Duration::from_millis(100), Duration::from_secs(3600));
    peer.advance_to(millis(99));
    assert!(peer.next_queued().is_none());
    peer.advance_to(millis(150));
    let message = peer.next_queued().unwrap();
    assert_eq!(
        message.message_type,
        MessageType::Ping,
        "expected server to actively send a Ping frame"
    );
    assert!(peer.next_queued().is_none());
    assert!(peer.closed_at.is_none());
}

#[test]
fn closes_connection_after_missed_heartbeats() {
    let mut peer = Peer::connect(Duration::from_millis(50), Duration::from_secs(3600));
    for beat in 1..=8 {
        peer.advance_to(millis(50 * beat));
    }
    assert_eq!(
        peer.closed_at,
        Some(millis(200)),
        "server should close a connection that never answers heartbeat pings"
    );
    for _ in 0..3 {
        assert!(peer.next_queued().unwrap().is_ping());
    }
    assert!(peer.next_queued().unwrap().is_close());
    assert!(peer.next_queued().is_none());
}

#[test]
fn keeps_alive_peer_that_sends_data_but_never_pongs() {
    let mut peer = Peer::connect(Duration::from_millis(30), Duration::from_secs(3600));
    for send in 0..13 {
        let frame = WireMessage::Text("keepalive".to_string());
        peer.read(millis(20 * send), ReadOutcome::Frame(frame));
    }
    peer.advance_to(millis(320));
    assert_eq!(
        peer.closed_at, None,
        "server closed a connection that was continuously sending data, \
         even though inbound traffic proves the peer is alive"
    );
    assert!(peer.session.connection().is_open(&peer.links));
    assert_eq!(
        peer.delivered.len(),
        13,
        "every data message from the live peer should have been delivered"
    );
    assert!(peer.delivered.iter().all(|m| m.as_bytes() == b"keepalive"));
}

#[test]
fn connection_state_reaches_closed_after_teardown() {
    let mut peer = Peer::connect(Duration::from_secs(3600), Duration::from_secs(3600));
    let id = peer.rooms.connection_ids().remove(0);
    let connection = peer.rooms.get_connection(&id).unwrap();
    assert_eq!(
        connection.state(&peer.links),
        ConnectionState::Open,
        "connection should be Open while the client is still connected"
    );

    peer.read(1, ReadOutcome::Frame(WireMessage::Close));
    assert_eq!(connection.state(&peer.links), ConnectionState::Closing);
    assert!(matches!(
        peer.step(SessionEvent::WriterDone),
        SessionAction::TellDisconnect
    ));
    assert_eq!(
        connection.state(&peer.links),
        ConnectionState::Closed,
        "connection state should reach Closed after full teardown"
    );
    assert!(matches!(
        peer.step(SessionEvent::DisconnectTold),
        SessionAction::Finished
    ));
    peer.links.release(&connection);
    assert_eq!(connection.state(&peer.links), ConnectionState::Closed);
    assert!(peer.rooms.get_connection(&id).is_none());
}

#[test]
fn is_closed_reflects_remote_close() {
    let (mut client, _outgoing, mut reader) =
        WebSocketClient::establish(ConnectOutcome::Established).unwrap_or_else(|_| panic!());
    assert!(
        !client.is_closed(),
        "freshly connected client should not report closed"
    );
    // The peer is gone without a closing handshake.
    let mut socket =
        WebSocket::from_raw_socket(Cursor::new(Vec::new()), Role::Client, None);
    let error = socket.read().unwrap_err().to_string();
    assert!(!reader.reader_task(&mut client, ReadOutcome::Failed(error)));
    drop(reader);
    assert!(client.is_closed());
    // The queue of received messages winds down too.
    assert!(client.try_recv().is_none());
    assert!(client.is_closed());
}

#[test]
fn client_enforces_max_message_size() {
    let request = WebSocketClient::builder()
        .url("ws://127.0.0.1:9001")
        .max_message_size(64)
        .connect()
        .unwrap_or_else(|_| panic!());
    let limits = request.config.unwrap();

    let (mut client, _outgoing, mut reader) =
        WebSocketClient::establish(ConnectOutcome::Established).unwrap_or_else(|_| panic!());
    let big = text_on_the_wire(Role::Server, "y".repeat(4096));
    let outcome = read_from_the_wire(Role::Client, limits, big);
    assert!(!reader.reader_task(&mut client, outcome));

    let mut got_payload = false;
    while let Some(message) = client.try_recv() {
        got_payload = got_payload || message.is_text();
    }
    assert!(
        !got_payload,
        "client configured with a small max_message_size should reject an oversized message"
    );
    assert!(client.is_closed());
}

#[test]
fn concurrent_close_sends_exactly_one_close_frame() {
    let (mut client, mut outgoing, _reader) =
        WebSocketClient::establish(ConnectOutcome::Established).unwrap_or_else(|_| panic!());
    for _ in 0..8 {
        client.close();
    }
    let mut close_count = 0;
    while let Ok(message) = outgoing.try_recv() {
        if message.is_close() {
            close_count += 1;
        }
    }
    assert_eq!(
        close_count, 1,
        "exactly one close frame should have been sent despite concurrent close() calls"
    );
}
