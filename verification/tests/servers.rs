use armature_websocket::{
    Message, Session, SocketAddr, WebSocketError, WebSocketServer, WebSocketServerBuilder,
    WebSocketServerConfig,
};
use std::time::Duration;

#[test]
fn default_settings() {
    let config = WebSocketServerConfig::default();
    assert_eq!(config.bind_addr, SocketAddr::V4 { ipv4: 0, port: 9001 });
    assert_eq!(config.max_message_size, 65536);
    assert_eq!(config.heartbeat_interval, Duration::from_secs(30));
    assert_eq!(config.connection_timeout, Duration::from_secs(60));
    let limits = config.clone().websocket_config();
    assert_eq!(limits.max_message_size, Some(65536));
    assert_eq!(limits.max_frame_size, Some(65536));
}

#[test]
fn a_builder_changes_one_setting_at_a_time() {
    let address = SocketAddr::V6 {
        ipv6: 1,
        port: 80,
        flowinfo: 0,
        scope_id: 0,
    };
    let server = WebSocketServer::<()>::builder()
        .bind_addr(address)
        .max_message_size(16)
        .heartbeat_interval(Duration::from_millis(50))
        .connection_timeout(Duration::from_millis(90))
        .build("handler");
    assert_eq!(*server.handler(), "handler");
    let config = server.config();
    assert_eq!(config.bind_addr, address);
    assert_eq!(config.max_message_size, 16);
    assert_eq!(config.heartbeat_interval, Duration::from_millis(50));
    assert_eq!(config.connection_timeout, Duration::from_millis(90));
    assert_eq!(config.websocket_config().max_frame_size, Some(16));
}

#[test]
fn binding_takes_a_parsed_address() {
    let address = SocketAddr::V4 {
        ipv4: 0x7f00_0001,
        port: 0,
    };
    let server = WebSocketServerBuilder::new().bind(Ok(address)).unwrap().build(());
    assert_eq!(server.config().bind_addr, address);
    match WebSocketServerBuilder::default().bind(Err("invalid socket address syntax".to_string())) {
        Err(WebSocketError::Server(text)) => {
            assert_eq!(text, "Invalid address: invalid socket address syntax")
        }
        _ => panic!("expected an error"),
    }
}

#[test]
fn a_server_holds_its_rooms_and_connections() {
    let mut server = WebSocketServer::new(WebSocketServerConfig::default(), ());
    assert_eq!(server.room_manager().connection_count(), 0);
    let (rooms, links) = server.parts();
    let (session, mut queue) = Session::accept(rooms, links, None);
    rooms.join_room(&session.connection().id, "lobby").unwrap();
    assert_eq!(
        rooms
            .broadcast_to_room(links, "lobby", Message::text("hi"))
            .unwrap(),
        1
    );
    assert_eq!(queue.try_recv().unwrap().as_bytes(), b"hi");
    assert_eq!(server.room_manager().room_count(), 1);
}
