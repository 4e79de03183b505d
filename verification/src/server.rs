//! Setting up a server.

use crate::address::SocketAddr;
use crate::connection::{LinkView, Links};
use crate::error::{prefixed, WebSocketError, WebSocketResult};
use crate::limits::{config_limited_to, limited_to};
use crate::manager::{RoomManager, RoomsView};
use crate::time::seconds;
use std::time::Duration;
use tungstenite::protocol::WebSocketConfig;
use vstd::prelude::*;

verus! {

/// The settings of a server.
#[derive(Debug)]
pub struct WebSocketServerConfig {
    /// The address to listen on.
    pub bind_addr: SocketAddr,
    /// The largest message to accept, in bytes.
    pub max_message_size: usize,
    /// The time between two heartbeats.
    pub heartbeat_interval: Duration,
    /// How long a peer may be silent.
    pub connection_timeout: Duration,
}

/// The settings that a server has unless it is told otherwise: it listens on
/// port 9001 of all IPv4 addresses, takes messages of up to 64 KiB, sends a
/// heartbeat every half minute and waits a minute for a silent peer.
pub open spec fn default_config() -> WebSocketServerConfig {
    WebSocketServerConfig {
        bind_addr: SocketAddr::V4 { ipv4: 0, port: 9001 },
        max_message_size: 65536,
        heartbeat_interval: seconds(30),
        connection_timeout: seconds(60),
    }
}

impl Default for WebSocketServerConfig {
    fn default() -> (config: WebSocketServerConfig)
        ensures
            config == default_config(),
            config.bind_addr == (SocketAddr::V4 { ipv4: 0, port: 9001 }),
            config.max_message_size == 64 * 1024,
            config.heartbeat_interval == seconds(30),
            config.connection_timeout == seconds(60),
    {
        WebSocketServerConfig {
            bind_addr: SocketAddr::V4 { ipv4: 0, port: 9001 },
            max_message_size: 64 * 1024,
            heartbeat_interval: Duration::from_secs(30),
            connection_timeout: Duration::from_secs(60),
        }
    }
}

impl Clone for WebSocketServerConfig {
    fn clone(&self) -> (copy: WebSocketServerConfig)
        ensures
            copy == *self,
            copy.bind_addr == self.bind_addr,
            copy.max_message_size == self.max_message_size,
            copy.heartbeat_interval == self.heartbeat_interval,
            copy.connection_timeout == self.connection_timeout,
    {
        WebSocketServerConfig {
            bind_addr: self.bind_addr,
            max_message_size: self.max_message_size,
            heartbeat_interval: self.heartbeat_interval,
            connection_timeout: self.connection_timeout,
        }
    }
}

impl WebSocketServerConfig {
    /// The settings of each WebSocket of the server: neither messages nor
    /// frames may be larger than the largest message to accept.
    pub fn websocket_config(&self) -> (config: WebSocketConfig)
        ensures
            limited_to(config, self.max_message_size),
            config.max_message_size == Some(self.max_message_size),
            config.max_frame_size == Some(self.max_message_size),
    {
        config_limited_to(self.max_message_size)
    }
}

/// Builds a server.
#[derive(Debug)]
pub struct WebSocketServerBuilder {
    config: WebSocketServerConfig,
}

impl View for WebSocketServerBuilder {
    type V = WebSocketServerConfig;

    closed spec fn view(&self) -> WebSocketServerConfig {
        self.config
    }
}

impl Default for WebSocketServerBuilder {
    fn default() -> (builder: WebSocketServerBuilder)
        ensures
            builder@ == default_config(),
    {
        WebSocketServerBuilder { config: WebSocketServerConfig::default() }
    }
}

impl WebSocketServerBuilder {
    /// A builder with the default settings.
    pub fn new() -> (builder: WebSocketServerBuilder)
        ensures
            builder@ == default_config(),
    {
        WebSocketServerBuilder::default()
    }

    /// Sets the address to listen on.
    pub fn bind_addr(self, addr: SocketAddr) -> (builder: WebSocketServerBuilder)
        ensures
            builder@ == (WebSocketServerConfig { bind_addr: addr, ..self@ }),
    {
        WebSocketServerBuilder { config: WebSocketServerConfig { bind_addr: addr, ..self.config } }
    }

    /// Sets the address to listen on to one that has been parsed, or passes on
    /// why it could not be.
    pub fn bind(self, parsed: Result<SocketAddr, String>) -> (result: WebSocketResult<
        WebSocketServerBuilder,
    >)
        ensures
            match parsed {
                Ok(addr) => result matches Ok(builder) && builder@ == (WebSocketServerConfig {
                    bind_addr: addr,
                    ..self@
                }),
                Err(text) => result matches Err(WebSocketError::Server(detail)) && detail@
                    == "Invalid address: "@ + text@,
            },
    {
        match parsed {
            Ok(addr) => Ok(self.bind_addr(addr)),
            Err(text) => Err(
                WebSocketError::Server(prefixed("Invalid address: ", text.as_str())),
            ),
        }
    }

    /// Sets the largest message to accept.
    pub fn max_message_size(self, size: usize) -> (builder: WebSocketServerBuilder)
        ensures
            builder@ == (WebSocketServerConfig { max_message_size: size, ..self@ }),
    {
        WebSocketServerBuilder {
            config: WebSocketServerConfig { max_message_size: size, ..self.config },
        }
    }

    /// Sets the time between two heartbeats.
    pub fn heartbeat_interval(self, interval: Duration) -> (builder: WebSocketServerBuilder)
        ensures
            builder@ == (WebSocketServerConfig { heartbeat_interval: interval, ..self@ }),
    {
        WebSocketServerBuilder {
            config: WebSocketServerConfig { heartbeat_interval: interval, ..self.config },
        }
    }

    /// Sets how long a peer may be silent.
    pub fn connection_timeout(self, timeout: Duration) -> (builder: WebSocketServerBuilder)
        ensures
            builder@ == (WebSocketServerConfig { connection_timeout: timeout, ..self@ }),
    {
        WebSocketServerBuilder {
            config: WebSocketServerConfig { connection_timeout: timeout, ..self.config },
        }
    }

    /// The server, with a handler.
    pub fn build<H>(self, handler: H) -> (server: WebSocketServer<H>)
        ensures
            server@ == WebSocketServerView::fresh(self@, handler),
            server@.config == self@,
            server@.handler == handler,
            server.wf(),
    {
        WebSocketServer::new(self.config, handler)
    }
}

/// A server: its settings, its handler, its rooms and its connections.
pub struct WebSocketServer<H> {
    config: WebSocketServerConfig,
    handler: H,
    room_manager: RoomManager,
    links: Links,
}

/// A server as a value.
#[verifier::reject_recursive_types(H)]
#[verifier::ext_equal]
pub struct WebSocketServerView<H> {
    pub config: WebSocketServerConfig,
    pub handler: H,
    pub rooms: RoomsView,
    pub links: Map<u64, LinkView>,
    pub issued: nat,
}

impl<H> WebSocketServerView<H> {
    /// A server that has seen no connection.
    pub open spec fn fresh(config: WebSocketServerConfig, handler: H) -> WebSocketServerView<H> {
        WebSocketServerView {
            config,
            handler,
            rooms: RoomsView::empty(),
            links: Map::empty(),
            issued: 0,
        }
    }
}

impl<H> View for WebSocketServer<H> {
    type V = WebSocketServerView<H>;

    closed spec fn view(&self) -> WebSocketServerView<H> {
        WebSocketServerView {
            config: self.config,
            handler: self.handler,
            rooms: self.room_manager@,
            links: self.links@,
            issued: self.links.issued(),
        }
    }
}

impl<H> WebSocketServer<H> {
    /// Rooms and connections are well-formed.
    pub closed spec fn wf(self) -> bool {
        self.room_manager.wf() && self.links.wf()
    }

    /// A server that has seen no connection.
    pub fn new(config: WebSocketServerConfig, handler: H) -> (server: WebSocketServer<H>)
        ensures
            server@ == WebSocketServerView::fresh(config, handler),
            server@.config == config,
            server@.handler == handler,
            (server@.rooms.rooms == Map::<Seq<char>, Set<Seq<char>>>::empty()),
            (server@.rooms.connections.dom() == Set::<Seq<char>>::empty()),
            (server@.links == Map::<u64, LinkView>::empty()),
            server@.issued == 0,
            server.wf(),
    {
        WebSocketServer { config, handler, room_manager: RoomManager::new(), links: Links::new() }
    }

    /// A builder for a server.
    pub fn builder() -> (builder: WebSocketServerBuilder)
        ensures
            builder@ == default_config(),
    {
        WebSocketServerBuilder::new()
    }

    /// The settings of the server.
    pub fn config(&self) -> (config: &WebSocketServerConfig)
        ensures
            *config == self@.config,
    {
        &self.config
    }

    /// The handler of the server.
    pub fn handler(&self) -> (handler: &H)
        ensures
            *handler == self@.handler,
    {
        &self.handler
    }

    /// The rooms of the server.
    pub fn room_manager(&self) -> (rooms: &RoomManager)
        requires
            self.wf(),
        ensures
            rooms@ == self@.rooms,
            rooms.wf(),
    {
        &self.room_manager
    }

    /// The rooms and the connections of the server, to change.
    pub fn parts(&mut self) -> (parts: (&mut RoomManager, &mut Links))
        requires
            old(self).wf(),
        ensures
            parts.0@ == old(self)@.rooms,
            parts.0.wf(),
            parts.1@ == old(self)@.links,
            parts.1.issued() == old(self)@.issued,
            parts.1.wf(),
            final(self)@ == (WebSocketServerView {
                rooms: final(parts.0)@,
                links: final(parts.1)@,
                issued: final(parts.1).issued(),
                ..old(self)@
            }),
            final(parts.0).wf() && final(parts.1).wf() ==> final(self).wf(),
    {
        (&mut self.room_manager, &mut self.links)
    }
}

} // verus!
