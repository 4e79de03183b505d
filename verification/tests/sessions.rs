use armature_websocket::session::MAX_MISSED_HEARTBEATS;
use armature_websocket::{
    ConnectionState, Links, Message, MessageType, ReadOutcome, RoomManager, Session,
    SessionAction, SessionEvent, WebSocketError, WireMessage,
};
use bytes::Bytes;
use tokio::sync::mpsc::{self, UnboundedReceiver};

struct World {
    rooms: RoomManager,
    links: Links,
    session: Session,
    queue: UnboundedReceiver<Message>,
}

impl World {
    fn reading() -> World {
        let mut rooms = RoomManager::new();
        let mut links = Links::new();
        let (tx, queue) = mpsc::unbounded_channel();
        let session = Session::open(&mut rooms, &mut links, "peer".to_string(), None, tx);
        let mut world = World {
            rooms,
            links,
            session,
            queue,
        };
        assert!(matches!(
            world.step(SessionEvent::ConnectTold { at: 100 }),
            SessionAction::Wait
        ));
        world
    }

    fn step(&mut self, event: SessionEvent) -> SessionAction {
        self.session.step(&mut self.rooms, &mut self.links, event)
    }

    fn read(&mut self, at: u128, frame: WireMessage) -> SessionAction {
        self.step(SessionEvent::Read {
            at,
            outcome: ReadOutcome::Frame(frame),
        })
    }

    fn state(&self) -> ConnectionState {
        self.session.connection().state(&self.links)
    }
}

#[test]
fn accepting_registers_an_open_connection() {
    let mut rooms = RoomManager::new();
    let mut links = Links::new();
    let (session, mut queue) = Session::accept(&mut rooms, &mut links, None);
    let (other, _other_queue) = Session::accept(&mut rooms, &mut links, None);
    let id = session.connection().id.clone();
    assert_eq!(id.len(), 36);
    for (i, c) in id.chars().enumerate() {
        match i {
            8 | 13 | 18 | 23 => assert_eq!(c, '-'),
            14 => assert_eq!(c, '4'),
            19 => assert!(['8', '9', 'a', 'b'].contains(&c)),
            _ => assert!(c.is_ascii_digit() || ('a'..='f').contains(&c)),
        }
    }
    assert_ne!(id, other.connection().id);
    assert_eq!(rooms.connection_count(), 2);
    let found = rooms.get_connection(&id).unwrap();
    assert_eq!(found.state(&links), ConnectionState::Open);
    found.send_text(&mut links, "welcome").unwrap();
    assert_eq!(queue.try_recv().unwrap().as_bytes(), b"welcome");
}

#[test]
fn a_heartbeat_sends_an_empty_ping() {
    let mut world = World::reading();
    assert!(matches!(
        world.step(SessionEvent::HeartbeatDue),
        SessionAction::Wait
    ));
    let ping = world.queue.try_recv().unwrap();
    assert!(ping.is_ping());
    assert!(ping.as_bytes().is_empty());
}

#[test]
fn a_silent_peer_is_given_up_after_the_fourth_heartbeat() {
    let mut world = World::reading();
    assert_eq!(MAX_MISSED_HEARTBEATS, 3);
    for _ in 0..3 {
        assert!(matches!(
            world.step(SessionEvent::HeartbeatDue),
            SessionAction::Wait
        ));
    }
    assert_eq!(world.session.missed_heartbeats(), 3);
    assert!(matches!(
        world.step(SessionEvent::HeartbeatDue),
        SessionAction::AwaitWriter
    ));
    assert_eq!(world.state(), ConnectionState::Closing);
    for _ in 0..3 {
        assert!(world.queue.try_recv().unwrap().is_ping());
    }
    assert!(world.queue.try_recv().unwrap().is_close());
    assert!(world.queue.try_recv().is_err());
}

#[test]
fn a_peer_that_sends_data_is_kept() {
    let mut world = World::reading();
    for round in 0..13 {
        assert!(matches!(
            world.step(SessionEvent::HeartbeatDue),
            SessionAction::Wait
        ));
        assert!(matches!(
            world.step(SessionEvent::HeartbeatDue),
            SessionAction::Wait
        ));
        match world.read(200 + round, WireMessage::Text("keepalive".to_string())) {
            SessionAction::TellMessage { message } => {
                assert_eq!(message.message_type, MessageType::Text);
                assert_eq!(message.as_bytes(), b"keepalive");
            }
            _ => panic!("expected a message"),
        }
    }
    assert_eq!(world.state(), ConnectionState::Open);
}

#[test]
fn heartbeats_do_not_put_off_the_idle_deadline() {
    let mut world = World::reading();
    assert_eq!(world.session.idle_deadline(90), 190);
    world.step(SessionEvent::HeartbeatDue);
    assert_eq!(world.session.idle_deadline(90), 190);
    world.read(150, WireMessage::Pong(Bytes::new()));
    assert_eq!(world.session.idle_deadline(90), 240);
    world.step(SessionEvent::PongReady {
        payload: vec![1],
    });
    assert_eq!(world.session.idle_deadline(90), 240);
}

#[test]
fn an_idle_peer_is_given_up() {
    let mut world = World::reading();
    assert!(matches!(
        world.step(SessionEvent::IdleElapsed),
        SessionAction::AwaitWriter
    ));
    assert_eq!(world.state(), ConnectionState::Closing);
    assert!(world.queue.try_recv().unwrap().is_close());
}

#[test]
fn pings_are_answered_as_the_handler_says() {
    let mut world = World::reading();
    match world.read(101, WireMessage::Ping(Bytes::from(vec![5, 6]))) {
        SessionAction::AskPong { payload } => assert_eq!(payload.as_ref(), [5, 6]),
        _ => panic!("expected a question"),
    }
    assert!(world.queue.try_recv().is_err());
    let payload = armature_websocket::handler::default_pong(&[5, 6]);
    assert!(matches!(
        world.step(SessionEvent::PongReady { payload }),
        SessionAction::Wait
    ));
    let pong = world.queue.try_recv().unwrap();
    assert!(pong.is_pong());
    assert_eq!(pong.as_bytes(), [5, 6]);
}

#[test]
fn pongs_and_binary_frames_reach_the_handler() {
    let mut world = World::reading();
    match world.read(101, WireMessage::Pong(Bytes::from(vec![1]))) {
        SessionAction::TellPong { payload } => assert_eq!(payload.as_ref(), [1]),
        _ => panic!("expected a pong"),
    }
    match world.read(102, WireMessage::Binary(Bytes::from(vec![2, 3]))) {
        SessionAction::TellMessage { message } => {
            assert_eq!(message.message_type, MessageType::Binary);
            assert_eq!(message.as_bytes(), [2, 3]);
        }
        _ => panic!("expected a message"),
    }
}

#[test]
fn a_read_error_is_told_before_closing() {
    let mut world = World::reading();
    match world.step(SessionEvent::Read {
        at: 101,
        outcome: ReadOutcome::Failed("too big".to_string()),
    }) {
        SessionAction::TellError { error } => match error {
            WebSocketError::Protocol(text) => assert_eq!(text, "too big"),
            other => panic!("unexpected: {:?}", other),
        },
        _ => panic!("expected an error"),
    }
    assert_eq!(world.state(), ConnectionState::Open);
    assert!(matches!(
        world.step(SessionEvent::ErrorTold),
        SessionAction::AwaitWriter
    ));
    assert_eq!(world.state(), ConnectionState::Closing);
}

#[test]
fn taking_leave_goes_step_by_step() {
    let mut world = World::reading();
    let observer = world.rooms.get_connection("peer").unwrap();
    world.rooms.join_room("peer", "room1").unwrap();
    assert!(matches!(
        world.read(101, WireMessage::Close),
        SessionAction::AwaitWriter
    ));
    assert_eq!(observer.state(&world.links), ConnectionState::Closing);
    assert!(matches!(
        world.step(SessionEvent::WriterDone),
        SessionAction::TellDisconnect
    ));
    assert_eq!(observer.state(&world.links), ConnectionState::Closed);
    assert!(world.rooms.get_connection("peer").is_some());
    assert!(matches!(
        world.step(SessionEvent::DisconnectTold),
        SessionAction::Finished
    ));
    assert!(world.rooms.get_connection("peer").is_none());
    assert!(world.rooms.get_room("room1").is_none());
    assert!(matches!(
        world.step(SessionEvent::HeartbeatDue),
        SessionAction::Nothing
    ));
}

#[test]
fn the_end_of_the_stream_ends_the_session() {
    let mut world = World::reading();
    assert!(matches!(
        world.step(SessionEvent::Read {
            at: 101,
            outcome: ReadOutcome::Ended
        }),
        SessionAction::AwaitWriter
    ));
}

#[test]
fn a_heartbeat_that_cannot_be_sent_ends_the_session() {
    let mut world = World::reading();
    let handle = world.rooms.get_connection("peer").unwrap();
    handle.close(&mut world.links);
    assert!(matches!(
        world.step(SessionEvent::HeartbeatDue),
        SessionAction::AwaitWriter
    ));
}

#[test]
fn events_out_of_turn_change_nothing() {
    let mut world = World::reading();
    assert!(matches!(
        world.step(SessionEvent::WriterDone),
        SessionAction::Nothing
    ));
    assert!(matches!(
        world.step(SessionEvent::ConnectTold { at: 999 }),
        SessionAction::Nothing
    ));
    assert_eq!(world.session.idle_deadline(0), 100);
    assert_eq!(world.state(), ConnectionState::Open);
}

#[test]
fn sessions_do_not_disturb_each_other() {
    let mut world = World::reading();
    let (tx, mut other_queue) = mpsc::unbounded_channel();
    let other = Session::open(
        &mut world.rooms,
        &mut world.links,
        "other".to_string(),
        None,
        tx,
    );
    world.step(SessionEvent::HeartbeatDue);
    world.step(SessionEvent::IdleElapsed);
    world.step(SessionEvent::WriterDone);
    world.step(SessionEvent::DisconnectTold);
    assert!(other.connection().is_open(&world.links));
    assert!(other_queue.try_recv().is_err());
    assert_eq!(world.rooms.connection_ids(), vec!["other"]);
}

#[test]
fn a_pong_is_dropped_when_the_connection_is_closing() {
    let mut world = World::reading();
    world.session.connection().clone().close(&mut world.links);
    assert!(world.queue.try_recv().unwrap().is_close());
    assert!(matches!(
        world.step(SessionEvent::PongReady { payload: vec![1] }),
        SessionAction::Wait
    ));
    assert!(world.queue.try_recv().is_err());
}
