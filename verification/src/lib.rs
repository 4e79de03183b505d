//! # Armature WebSocket
//!
//! WebSocket connections, rooms and broadcasting, with verified behaviour.
//!
//! - [`Connection`] is a handle to a connection, and [`Links`] holds what the
//!   handles to a connection share: its state and its queue of messages.
//! - [`RoomManager`] keeps rooms and the connections in them, and broadcasts.
//! - [`Session`] decides, event by event, how a server treats a connection:
//!   heartbeats, idle peers, frames, and taking leave.
//! - [`WebSocketClient`] is the other side.
//!
//! Everything that changes takes an exclusive reference. What is to be shared
//! between tasks goes behind a lock.

pub mod address;
pub mod broadcast;
pub mod broadcast_laws;
pub mod channel;
pub mod client;
pub mod connection;
pub mod error;
pub mod handler;
pub mod limits;
pub mod manager;
pub mod message;
pub mod names;
pub mod payload;
pub mod room;
pub mod room_laws;
pub mod server;
pub mod session;
pub mod session_laws;
pub mod tables;
pub mod time;
pub mod writer;

pub use address::SocketAddr;
pub use client::{
    ClientReader, ConnectOutcome, ConnectRequest, WebSocketClient, WebSocketClientBuilder,
};
pub use connection::{Connection, ConnectionId, ConnectionState, Links};
pub use error::{WebSocketError, WebSocketResult};
pub use manager::RoomManager;
pub use message::{InvalidTextPayload, Message, MessageType, ReadOutcome, WireMessage};
pub use room::{Room, RoomId};
pub use server::{WebSocketServer, WebSocketServerBuilder, WebSocketServerConfig};
pub use session::{Session, SessionAction, SessionEvent};
pub use writer::{ClientWriter, ConnectionWriter, WriterAction, WriterEvent};
