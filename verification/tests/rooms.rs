use armature_websocket::{
    Connection, ConnectionState, Links, Message, Room, RoomManager, WebSocketError,
};
use tokio::sync::mpsc::{self, UnboundedReceiver};

fn make_connection(links: &mut Links, id: &str) -> (Connection, UnboundedReceiver<Message>) {
    let (tx, rx) = mpsc::unbounded_channel();
    (Connection::new(links, id.to_string(), None, tx), rx)
}

fn sorted(mut names: Vec<String>) -> Vec<String> {
    names.sort();
    names
}

#[test]
fn broadcast_sent_count_reflects_actual_deliveries() {
    let mut links = Links::new();
    let mut manager = RoomManager::new();
    let (conn_a, mut rx_a) = make_connection(&mut links, "a");
    let (conn_b, rx_b) = make_connection(&mut links, "b");
    let (conn_c, mut rx_c) = make_connection(&mut links, "c");

    manager.register_connection(conn_a);
    manager.register_connection(conn_b);
    manager.register_connection(conn_c);

    manager.join_room("a", "room1").unwrap();
    manager.join_room("b", "room1").unwrap();
    manager.join_room("c", "room1").unwrap();

    // A dead connection: its receiver is gone, so sending to "b" fails.
    drop(rx_b);

    let sent = manager
        .broadcast_to_room(&mut links, "room1", Message::text("hi"))
        .unwrap();

    assert_eq!(
        sent, 2,
        "sent_count must reflect only the connections that actually received the message"
    );
    assert!(rx_a.try_recv().is_ok());
    assert!(rx_c.try_recv().is_ok());
}

#[test]
fn broadcast_except_excludes_sender_and_dead_connections() {
    let mut links = Links::new();
    let mut manager = RoomManager::new();
    let (conn_a, mut rx_a) = make_connection(&mut links, "a");
    let (conn_b, rx_b) = make_connection(&mut links, "b");
    let (conn_c, mut rx_c) = make_connection(&mut links, "c");

    manager.register_connection(conn_a);
    manager.register_connection(conn_b);
    manager.register_connection(conn_c);

    manager.join_room("a", "room1").unwrap();
    manager.join_room("b", "room1").unwrap();
    manager.join_room("c", "room1").unwrap();

    drop(rx_b);

    let sent = manager
        .broadcast_to_room_except(&mut links, "room1", Message::text("hi"), "a")
        .unwrap();

    assert_eq!(sent, 1, "only 'c' should receive: 'a' excluded, 'b' dead");
    assert!(rx_a.try_recv().is_err());
    assert!(rx_c.try_recv().is_ok());
}

#[test]
fn room_persists_while_a_member_remains_and_is_removed_once_empty() {
    let mut links = Links::new();
    let mut manager = RoomManager::new();
    let (conn_a, _rx_a) = make_connection(&mut links, "a");
    let (conn_b, _rx_b) = make_connection(&mut links, "b");
    manager.register_connection(conn_a);
    manager.register_connection(conn_b);

    manager.join_room("a", "room1").unwrap();
    manager.join_room("b", "room1").unwrap();

    assert!(manager.get_room("room1").is_some());

    manager.leave_room("a", "room1").unwrap();
    assert!(
        manager.get_room("room1").is_some(),
        "room must not be removed while a member remains"
    );

    manager.leave_room("b", "room1").unwrap();
    assert!(
        manager.get_room("room1").is_none(),
        "room should be removed once its last member leaves"
    );
}

#[test]
fn room_removed_when_last_connection_is_unregistered() {
    let mut links = Links::new();
    let mut manager = RoomManager::new();
    let (conn_a, _rx_a) = make_connection(&mut links, "a");
    manager.register_connection(conn_a);
    manager.join_room("a", "room1").unwrap();

    assert!(manager.get_room("room1").is_some());

    manager.unregister_connection("a");

    assert!(
        manager.get_room("room1").is_none(),
        "room should be cleaned up once its last connection is unregistered"
    );
}

#[test]
fn a_room_knows_its_members() {
    let mut room = Room::new("lobby".to_string());
    assert_eq!(room.id, "lobby");
    assert!(room.is_empty());
    assert_eq!(room.len(), 0);

    room.join("a".to_string());
    room.join("b".to_string());
    room.join("a".to_string());
    assert_eq!(room.len(), 2);
    assert!(!room.is_empty());
    assert!(room.contains("a"));
    assert!(!room.contains("c"));
    assert_eq!(sorted(room.members()), vec!["a", "b"]);

    assert!(room.leave("a"));
    assert!(!room.leave("a"));
    assert_eq!(room.members(), vec!["b"]);
}

#[test]
fn every_member_is_visited_once() {
    let mut room = Room::new("lobby".to_string());
    room.join("a".to_string());
    room.join("b".to_string());
    let mut seen = Vec::new();
    room.for_each_member(|member| seen.push(member.to_string()));
    assert_eq!(sorted(seen), vec!["a", "b"]);
}

#[test]
fn an_unknown_connection_cannot_join() {
    let mut manager = RoomManager::new();
    match manager.join_room("ghost", "room1") {
        Err(WebSocketError::ConnectionNotFound(id)) => assert_eq!(id, "ghost"),
        other => panic!("unexpected: {:?}", other),
    }
    assert!(manager.get_room("room1").is_none());
    assert_eq!(manager.room_count(), 0);
}

#[test]
fn a_broadcast_needs_a_room() {
    let mut links = Links::new();
    let manager = RoomManager::new();
    match manager.broadcast_to_room(&mut links, "nowhere", Message::text("hi")) {
        Err(WebSocketError::RoomNotFound(id)) => assert_eq!(id, "nowhere"),
        other => panic!("unexpected: {:?}", other),
    }
    match manager.broadcast_to_room_except(&mut links, "nowhere", Message::text("hi"), "a") {
        Err(WebSocketError::RoomNotFound(id)) => assert_eq!(id, "nowhere"),
        other => panic!("unexpected: {:?}", other),
    }
}

#[test]
fn a_broadcast_reaches_the_room_and_nobody_else() {
    let mut links = Links::new();
    let mut manager = RoomManager::new();
    let (conn_a, mut rx_a) = make_connection(&mut links, "a");
    let (conn_b, mut rx_b) = make_connection(&mut links, "b");
    manager.register_connection(conn_a);
    manager.register_connection(conn_b);
    manager.join_room("a", "room1").unwrap();

    let sent = manager
        .broadcast_to_room(&mut links, "room1", Message::text("hi"))
        .unwrap();
    assert_eq!(sent, 1);
    assert_eq!(rx_a.try_recv().unwrap().as_bytes(), b"hi");
    assert!(rx_a.try_recv().is_err());
    assert!(rx_b.try_recv().is_err());
}

#[test]
fn a_closed_connection_is_not_counted() {
    let mut links = Links::new();
    let mut manager = RoomManager::new();
    let (conn_a, mut rx_a) = make_connection(&mut links, "a");
    let (conn_b, _rx_b) = make_connection(&mut links, "b");
    manager.register_connection(conn_a.clone());
    manager.register_connection(conn_b);
    conn_a.close(&mut links);

    assert_eq!(manager.broadcast_all(&mut links, Message::text("hi")), 1);
    assert!(rx_a.try_recv().unwrap().is_close());
    assert!(rx_a.try_recv().is_err());
}

#[test]
fn excepting_a_stranger_excepts_nobody() {
    let mut links = Links::new();
    let mut manager = RoomManager::new();
    let (conn_a, _rx_a) = make_connection(&mut links, "a");
    let (conn_b, _rx_b) = make_connection(&mut links, "b");
    manager.register_connection(conn_a);
    manager.register_connection(conn_b);
    manager.join_room("a", "room1").unwrap();
    manager.join_room("b", "room1").unwrap();
    let sent = manager
        .broadcast_to_room_except(&mut links, "room1", Message::text("hi"), "z")
        .unwrap();
    assert_eq!(sent, 2);
}

#[test]
fn a_deleted_room_is_on_nobodys_record() {
    let mut links = Links::new();
    let mut manager = RoomManager::new();
    let (conn_a, _rx_a) = make_connection(&mut links, "a");
    manager.register_connection(conn_a);
    manager.join_room("a", "room1").unwrap();
    manager.join_room("a", "room2").unwrap();

    assert!(manager.delete_room("room1"));
    assert!(!manager.delete_room("room1"));
    assert_eq!(manager.room_ids(), vec!["room2"]);

    // A new room of that name is not touched when the connection goes.
    manager.create_room("room1".to_string());
    manager.unregister_connection("a");
    assert_eq!(manager.room_ids(), vec!["room1"]);
}

#[test]
fn rooms_stay_apart_as_others_come_and_go() {
    let mut links = Links::new();
    let mut manager = RoomManager::new();
    let mut receivers = Vec::new();
    for id in ["a", "b", "c", "d"] {
        let (connection, rx) = make_connection(&mut links, id);
        manager.register_connection(connection);
        receivers.push(rx);
        manager.join_room(id, &format!("room-{}", id)).unwrap();
        manager.join_room(id, "all").unwrap();
    }
    assert_eq!(manager.room_count(), 5);
    assert_eq!(manager.connection_count(), 4);

    manager.unregister_connection("a");
    manager.leave_room("c", "room-c").unwrap();
    assert_eq!(
        sorted(manager.room_ids()),
        vec!["all", "room-b", "room-d"]
    );
    assert_eq!(sorted(manager.connection_ids()), vec!["b", "c", "d"]);
    let all = manager.get_room("all").unwrap();
    assert_eq!(sorted(all.members()), vec!["b", "c", "d"]);
    let own = manager.get_room("room-d").unwrap();
    assert_eq!(own.id, "room-d");
    assert_eq!(own.members(), vec!["d"]);
}

#[test]
fn a_created_room_can_be_filled_directly() {
    let mut manager = RoomManager::new();
    manager.create_room("room1".to_string()).join("a".to_string());
    assert!(manager.get_room("room1").unwrap().contains("a"));
    // Asking for it again gives the same room.
    assert_eq!(manager.create_room("room1".to_string()).len(), 1);
    assert_eq!(manager.room_count(), 1);
}

#[test]
fn a_name_registered_twice_still_leaves_every_room() {
    let mut links = Links::new();
    let mut manager = RoomManager::new();
    let (first, _rx_first) = make_connection(&mut links, "a");
    let (second, _rx_second) = make_connection(&mut links, "a");
    let (other, _rx_other) = make_connection(&mut links, "b");
    manager.register_connection(first);
    manager.register_connection(other);
    manager.join_room("a", "room1").unwrap();
    manager.join_room("a", "room2").unwrap();
    manager.join_room("b", "room2").unwrap();
    manager.register_connection(second);
    assert!(manager.get_room("room1").unwrap().contains("a"));

    manager.unregister_connection("a");
    assert!(manager.get_connection("a").is_none());
    assert!(manager.get_room("room1").is_none());
    assert_eq!(manager.get_room("room2").unwrap().members(), vec!["b"]);
}

#[test]
fn a_member_let_in_directly_leaves_too() {
    let mut links = Links::new();
    let mut manager = RoomManager::new();
    let (conn_a, _rx_a) = make_connection(&mut links, "a");
    manager.register_connection(conn_a);
    manager.create_room("room1".to_string()).join("a".to_string());
    manager.create_room("empty".to_string());

    manager.unregister_connection("a");
    assert!(manager.get_room("room1").is_none());
    // An empty room that it was not in stays.
    assert_eq!(manager.room_ids(), vec!["empty"]);
}

#[test]
fn excepting_takes_one_from_the_count() {
    let mut links = Links::new();
    let mut manager = RoomManager::new();
    let mut receivers = Vec::new();
    for id in ["a", "b", "c"] {
        let (connection, rx) = make_connection(&mut links, id);
        manager.register_connection(connection);
        manager.join_room(id, "room1").unwrap();
        receivers.push(rx);
    }
    let full = manager
        .broadcast_to_room(&mut links, "room1", Message::text("hi"))
        .unwrap();
    let except = manager
        .broadcast_to_room_except(&mut links, "room1", Message::text("hi"), "b")
        .unwrap();
    assert_eq!((full, except), (3, 2));

    // One that would not have been reached is not missed.
    manager.get_connection("b").unwrap().close(&mut links);
    let full = manager
        .broadcast_to_room(&mut links, "room1", Message::text("hi"))
        .unwrap();
    let except = manager
        .broadcast_to_room_except(&mut links, "room1", Message::text("hi"), "b")
        .unwrap();
    assert_eq!((full, except), (2, 2));
}

#[test]
fn joining_twice_brings_one_copy_on_values() {
    let mut links = Links::new();
    let mut manager = RoomManager::new();
    let (conn_a, mut rx_a) = make_connection(&mut links, "a");
    manager.register_connection(conn_a);
    manager.join_room("a", "room1").unwrap();
    manager.join_room("a", "room1").unwrap();
    assert_eq!(manager.get_room("room1").unwrap().len(), 1);
    let sent = manager
        .broadcast_to_room(&mut links, "room1", Message::text("hi"))
        .unwrap();
    assert_eq!(sent, 1);
    assert!(rx_a.try_recv().is_ok());
    assert!(rx_a.try_recv().is_err());
    manager.leave_room("a", "room1").unwrap();
    assert!(manager.get_room("room1").is_none());
}

#[test]
fn leaving_undoes_joining_on_values() {
    let mut links = Links::new();
    let mut manager = RoomManager::default();
    let (conn_a, _rx_a) = make_connection(&mut links, "a");
    let (conn_b, _rx_b) = make_connection(&mut links, "b");
    manager.register_connection(conn_a);
    manager.register_connection(conn_b);
    manager.join_room("b", "room1").unwrap();
    manager.join_room("a", "room1").unwrap();
    manager.leave_room("a", "room1").unwrap();
    assert_eq!(manager.get_room("room1").unwrap().members(), vec!["b"]);

    // A room that stood empty is gone.
    manager.create_room("empty".to_string());
    manager.join_room("a", "empty").unwrap();
    manager.leave_room("a", "empty").unwrap();
    assert!(manager.get_room("empty").is_none());
}

#[test]
fn a_registered_connection_is_found_by_name() {
    let mut links = Links::new();
    let mut manager = RoomManager::new();
    let (conn_a, mut rx_a) = make_connection(&mut links, "a");
    manager.register_connection(conn_a);
    let found = manager.get_connection("a").unwrap();
    assert_eq!(found.id, "a");
    assert_eq!(found.state(&links), ConnectionState::Open);
    found.send_text(&mut links, "direct").unwrap();
    assert_eq!(rx_a.try_recv().unwrap().as_bytes(), b"direct");
    assert!(manager.get_connection("b").is_none());
}

#[test]
fn an_empty_room_on_record_goes_with_the_connection() {
    let mut links = Links::new();
    let mut manager = RoomManager::new();
    let (conn_a, _rx_a) = make_connection(&mut links, "a");
    manager.register_connection(conn_a);
    manager.join_room("a", "r").unwrap();
    manager.join_room("a", "kept").unwrap();
    manager.create_room("r".to_string()).leave("a");
    let kept = manager.create_room("kept".to_string());
    kept.leave("a");
    kept.join("b".to_string());

    manager.unregister_connection("a");
    assert_eq!(manager.room_ids(), vec!["kept"]);
}

#[test]
fn names_of_one_connection_are_each_reached() {
    let mut links = Links::new();
    let mut manager = RoomManager::new();
    let (connection, mut rx) = make_connection(&mut links, "a");
    let mut alias = connection.clone();
    alias.id = "b".to_string();
    manager.register_connection(connection);
    manager.register_connection(alias);
    manager.join_room("a", "room1").unwrap();
    manager.join_room("b", "room1").unwrap();

    let full = manager
        .broadcast_to_room(&mut links, "room1", Message::text("hi"))
        .unwrap();
    assert_eq!(full, 2);
    assert!(rx.try_recv().is_ok());
    assert!(rx.try_recv().is_ok());
    assert!(rx.try_recv().is_err());

    let except = manager
        .broadcast_to_room_except(&mut links, "room1", Message::text("hi"), "a")
        .unwrap();
    assert_eq!(except, 1);
    assert!(rx.try_recv().is_ok());
    assert!(rx.try_recv().is_err());
}
