//! One connection of a server, from the handshake to the last farewell.

use crate::address::SocketAddr;
use crate::channel::{queue, queue_drained, taken_messages};
use crate::connection::{
    close_begun, fresh_link, offered, with_state, Connection, ConnectionId, ConnectionState,
    ConnectionView, LinkView, Links,
};
use crate::error::WebSocketError;
use crate::manager::{RoomManager, RoomsView};
use crate::message::{Message, MessageType, MessageView, ReadOutcome, WireMessage, WireView};
use crate::payload::bytes_content;
use bytes::Bytes;
use tokio::sync::mpsc::{UnboundedReceiver, UnboundedSender};
use vstd::prelude::*;

verus! {

/// How many heartbeats in a row may go by without a frame from the peer. The
/// next one ends the session.
pub const MAX_MISSED_HEARTBEATS: u32 = 3;

/// What a session is told.
pub enum SessionEvent {
    /// The handler knows of the connection, as of this time.
    ConnectTold { at: u128 },
    /// It is time for a heartbeat.
    HeartbeatDue,
    /// The peer has been silent until the idle deadline.
    IdleElapsed,
    /// Something was read, at this time.
    Read { at: u128, outcome: ReadOutcome },
    /// The handler has answered a ping with this payload.
    PongReady { payload: Vec<u8> },
    /// The handler knows of the error.
    ErrorTold,
    /// The writer has finished.
    WriterDone,
    /// The handler knows that the connection is gone.
    DisconnectTold,
}

/// What a session asks for.
pub enum SessionAction {
    /// Wait for the next heartbeat, the idle deadline or the next frame.
    Wait,
    /// Ask the handler how to answer a ping with this payload.
    AskPong { payload: Bytes },
    /// Tell the handler of a pong with this payload, then wait.
    TellPong { payload: Bytes },
    /// Tell the handler of a message, then wait.
    TellMessage { message: Message },
    /// Tell the handler of an error.
    TellError { error: WebSocketError },
    /// Wait for the writer to finish.
    AwaitWriter,
    /// Tell the handler that the connection is gone.
    TellDisconnect,
    /// The session is over.
    Finished,
    /// Nothing: the event was not expected.
    Nothing,
}

/// Where a session is in its life.
#[derive(Debug, Clone, Copy, PartialEq, Eq, Structural)]
pub enum Phase {
    /// The handler is being told of the connection.
    Greeting,
    /// Frames are being read.
    Reading,
    /// The handler is being told of an error.
    Failing,
    /// The connection is closing, and the writer is finishing.
    Draining,
    /// The connection is closed, and the handler is being told.
    Departing,
    /// All is done.
    Gone,
}

/// A session: a connection, and what is known of its peer's liveness.
pub struct Session {
    connection: Connection,
    missed_heartbeats: u32,
    last_read: u128,
    phase: Phase,
}

/// A session as a value.
pub struct SessionView {
    pub connection: ConnectionView,
    pub missed_heartbeats: u32,
    pub last_read: u128,
    pub phase: Phase,
}

impl View for Session {
    type V = SessionView;

    closed spec fn view(&self) -> SessionView {
        SessionView {
            connection: self.connection@,
            missed_heartbeats: self.missed_heartbeats,
            last_read: self.last_read,
            phase: self.phase,
        }
    }
}

/// What the session asks for after a frame other than a close frame: pings and
/// pongs go to the handler by their payload, anything else as a message.
pub open spec fn answers_frame(frame: WireView, action: SessionAction) -> bool {
    match frame {
        WireView::Ping(data) => action matches SessionAction::AskPong { payload }
            && bytes_content(payload) == data,
        WireView::Pong(data) => action matches SessionAction::TellPong { payload }
            && bytes_content(payload) == data,
        _ => action matches SessionAction::TellMessage { message } && message@ == frame.message(),
    }
}

/// The session stops reading: it starts to close its connection, and waits for
/// the writer.
pub open spec fn winds_down(
    before: SessionView,
    after: SessionView,
    action: SessionAction,
    links: Map<u64, LinkView>,
    links_after: Map<u64, LinkView>,
) -> bool {
    &&& after == SessionView { phase: Phase::Draining, ..before }
    &&& action is AwaitWriter
    &&& close_begun(links, links_after, before.connection.link)
}

/// The session goes on, and nothing else changes.
pub open spec fn carries_on(
    after: SessionView,
    expected: SessionView,
    links: Map<u64, LinkView>,
    links_after: Map<u64, LinkView>,
) -> bool {
    &&& after == expected
    &&& links_after == links
}

/// A heartbeat: one more has gone by without a frame. Too many end the
/// session; otherwise the peer is sent an empty ping, and the session ends if
/// that cannot be queued.
pub open spec fn heartbeat(
    before: SessionView,
    after: SessionView,
    action: SessionAction,
    links: Map<u64, LinkView>,
    links_after: Map<u64, LinkView>,
) -> bool {
    let ping = MessageView::bare(MessageType::Ping);
    if before.missed_heartbeats >= MAX_MISSED_HEARTBEATS {
        winds_down(before, after, action, links, links_after)
    } else {
        let counted = SessionView {
            missed_heartbeats: (before.missed_heartbeats + 1) as u32,
            ..before
        };
        ||| {
            &&& offered(links, links_after, before.connection.link, ping, true)
            &&& after == counted
            &&& action is Wait
        }
        ||| exists|between: Map<u64, LinkView>|
            {
                &&& #[trigger] offered(links, between, before.connection.link, ping, false)
                &&& winds_down(counted, after, action, between, links_after)
            }
    }
}

/// Something was read. Any frame shows that the peer is alive.
pub open spec fn read(
    before: SessionView,
    at: u128,
    outcome: ReadOutcome,
    after: SessionView,
    action: SessionAction,
    links: Map<u64, LinkView>,
    links_after: Map<u64, LinkView>,
) -> bool {
    let heard = SessionView { last_read: at, ..before };
    match outcome {
        ReadOutcome::Frame(frame) => {
            let alive = SessionView { missed_heartbeats: 0, ..heard };
            if frame@ is Close {
                winds_down(alive, after, action, links, links_after)
            } else {
                &&& carries_on(after, alive, links, links_after)
                &&& answers_frame(frame@, action)
            }
        },
        ReadOutcome::Failed(text) => {
            &&& carries_on(
                after,
                SessionView { phase: Phase::Failing, ..heard },
                links,
                links_after,
            )
            &&& action == (SessionAction::TellError { error: WebSocketError::Protocol(text) })
        },
        ReadOutcome::Ended => winds_down(heard, after, action, links, links_after),
    }
}

/// The step that a session takes at an event. Each phase has its own events;
/// any other is ignored.
pub open spec fn session_step(
    before: SessionView,
    event: SessionEvent,
    after: SessionView,
    action: SessionAction,
    links: Map<u64, LinkView>,
    links_after: Map<u64, LinkView>,
    rooms: RoomsView,
    rooms_after: RoomsView,
) -> bool {
    match (before.phase, event) {
        (Phase::Greeting, SessionEvent::ConnectTold { at }) => {
            &&& carries_on(
                after,
                SessionView { phase: Phase::Reading, last_read: at, ..before },
                links,
                links_after,
            )
            &&& action is Wait
            &&& rooms_after == rooms
        },
        (Phase::Reading, SessionEvent::HeartbeatDue) => {
            &&& heartbeat(before, after, action, links, links_after)
            &&& rooms_after == rooms
        },
        (Phase::Reading, SessionEvent::IdleElapsed) => {
            &&& winds_down(before, after, action, links, links_after)
            &&& rooms_after == rooms
        },
        (Phase::Reading, SessionEvent::Read { at, outcome }) => {
            &&& read(before, at, outcome, after, action, links, links_after)
            &&& rooms_after == rooms
        },
        (Phase::Reading, SessionEvent::PongReady { payload }) => {
            let pong = MessageView { message_type: MessageType::Pong, payload: payload@ };
            &&& after == before
            &&& action is Wait
            &&& exists|taken: bool| #[trigger]
                offered(links, links_after, before.connection.link, pong, taken)
            &&& rooms_after == rooms
        },
        (Phase::Failing, SessionEvent::ErrorTold) => {
            &&& winds_down(before, after, action, links, links_after)
            &&& rooms_after == rooms
        },
        (Phase::Draining, SessionEvent::WriterDone) => {
            &&& after == SessionView { phase: Phase::Departing, ..before }
            &&& action is TellDisconnect
            &&& links_after == with_state(links, before.connection.link, ConnectionState::Closed)
            &&& rooms_after == rooms
        },
        (Phase::Departing, SessionEvent::DisconnectTold) => {
            &&& carries_on(
                after,
                SessionView { phase: Phase::Gone, ..before },
                links,
                links_after,
            )
            &&& action is Finished
            &&& rooms_after == rooms.unregister(before.connection.id)
        },
        _ => {
            &&& carries_on(after, before, links, links_after)
            &&& action is Nothing
            &&& rooms_after == rooms
        },
    }
}

/// Whether a text has the shape of a random UUID: lower-case hexadecimal digits
/// in five groups, with the digits that mark the version and the variant.
pub open spec fn is_uuid_text(text: Seq<char>) -> bool {
    &&& text.len() == 36
    &&& forall|i: int|
        0 <= i < 36 ==> if i == 8 || i == 13 || i == 18 || i == 23 {
            #[trigger] text[i] == '-'
        } else {
            '0' <= text[i] <= '9' || 'a' <= text[i] <= 'f'
        }
    &&& text[14] == '4'
    &&& text[19] == '8' || text[19] == '9' || text[19] == 'a' || text[19] == 'b'
}

/// `uuid::Uuid::new_v4`, as text: some random UUID. It is drawn from the
/// operating system, so nothing is claimed of which one it is. Where the system
/// has no randomness to give, the call panics.
#[verifier::external_body]
fn random_id() -> (id: String)
    ensures
        is_uuid_text(id@),
{
    uuid::Uuid::new_v4().to_string()
}

impl Session {
    /// Opens a connection of the given name on the given queue, and registers
    /// it.
    pub fn open(
        rooms: &mut RoomManager,
        links: &mut Links,
        id: ConnectionId,
        remote_addr: Option<SocketAddr>,
        sender: UnboundedSender<Message>,
    ) -> (session: Session)
        requires
            old(rooms).wf(),
            old(links).wf(),
            old(links).issued() < u64::MAX,
        ensures
            final(rooms).wf(),
            final(links).wf(),
            final(links).issued() == old(links).issued() + 1,
            session@.phase == Phase::Greeting,
            session@.missed_heartbeats == 0,
            session@.last_read == 0,
            session@.connection.id == id@,
            session@.connection.remote_addr == remote_addr,
            session@.connection.link == old(links).issued(),
            !old(links)@.contains_key(session@.connection.link),
            final(links)@ == old(links)@.insert(session@.connection.link, fresh_link(sender)),
            final(rooms)@ == old(rooms)@.register(session@.connection),
    {
        let connection = Connection::new(links, id, remote_addr, sender);
        rooms.register_connection(connection.clone());
        Session { connection, missed_heartbeats: 0, last_read: 0, phase: Phase::Greeting }
    }

    /// Opens a connection under a random name on a new queue, and registers it.
    /// The receiving half of that queue is for its writer.
    pub fn accept(
        rooms: &mut RoomManager,
        links: &mut Links,
        remote_addr: Option<SocketAddr>,
    ) -> (accepted: (Session, UnboundedReceiver<Message>))
        requires
            old(rooms).wf(),
            old(links).wf(),
            old(links).issued() < u64::MAX,
        ensures
            final(rooms).wf(),
            final(links).wf(),
            final(links).issued() == old(links).issued() + 1,
            accepted.0@.phase == Phase::Greeting,
            accepted.0@.missed_heartbeats == 0,
            accepted.0@.last_read == 0,
            is_uuid_text(accepted.0@.connection.id),
            accepted.0@.connection.remote_addr == remote_addr,
            accepted.0@.connection.link == old(links).issued(),
            !old(links)@.contains_key(accepted.0@.connection.link),
            final(links)@ == old(links)@.insert(
                accepted.0@.connection.link,
                (LinkView {
                    state: ConnectionState::Open,
                    sent: Seq::<MessageView>::empty(),
                    refused: false,
                    queue: queue_drained(accepted.1),
                    held: true,
                }),
            ),
            final(rooms)@ == old(rooms)@.register(accepted.0@.connection),
            taken_messages(accepted.1) == Seq::<Option<MessageView>>::empty(),
    {
        let id = random_id();
        let (sender, receiver) = queue();
        let session = Session::open(rooms, links, id, remote_addr, sender);
        (session, receiver)
    }

    /// The connection of the session.
    pub fn connection(&self) -> (connection: &Connection)
        ensures
            connection@ == self@.connection,
    {
        &self.connection
    }

    /// How many heartbeats in a row have gone by without a frame.
    pub fn missed_heartbeats(&self) -> (count: u32)
        ensures
            count == self@.missed_heartbeats,
    {
        self.missed_heartbeats
    }

    /// The time until which the peer may be silent.
    pub fn idle_deadline(&self, timeout: u128) -> (deadline: u128)
        requires
            self@.last_read + timeout <= u128::MAX,
        ensures
            deadline == self@.last_read + timeout,
    {
        self.last_read + timeout
    }

    /// Closes the connection, and waits for the writer.
    fn wind_down(&mut self, links: &mut Links) -> (action: SessionAction)
        requires
            old(links).wf(),
        ensures
            final(links).wf(),
            final(links).issued() == old(links).issued(),
            winds_down(old(self)@, final(self)@, action, old(links)@, final(links)@),
    {
        self.connection.close(links);
        self.phase = Phase::Draining;
        SessionAction::AwaitWriter
    }

    fn on_heartbeat(&mut self, links: &mut Links) -> (action: SessionAction)
        requires
            old(links).wf(),
        ensures
            final(links).wf(),
            final(links).issued() == old(links).issued(),
            heartbeat(old(self)@, final(self)@, action, old(links)@, final(links)@),
    {
        if self.missed_heartbeats >= MAX_MISSED_HEARTBEATS {
            return self.wind_down(links);
        }
        self.missed_heartbeats = self.missed_heartbeats + 1;
        let ping = Message::ping(Vec::new());
        assert(ping@ == MessageView::bare(MessageType::Ping)) by {
            assert(ping@.payload =~= Seq::<u8>::empty());
        }
        match self.connection.send(links, ping) {
            Ok(()) => SessionAction::Wait,
            Err(_) => self.wind_down(links),
        }
    }

    fn on_read(&mut self, links: &mut Links, at: u128, outcome: ReadOutcome) -> (action:
        SessionAction)
        requires
            old(links).wf(),
        ensures
            final(links).wf(),
            final(links).issued() == old(links).issued(),
            read(old(self)@, at, outcome, final(self)@, action, old(links)@, final(links)@),
    {
        self.last_read = at;
        match outcome {
            ReadOutcome::Frame(frame) => {
                self.missed_heartbeats = 0;
                match frame {
                    WireMessage::Close => self.wind_down(links),
                    WireMessage::Ping(payload) => SessionAction::AskPong { payload },
                    WireMessage::Pong(payload) => SessionAction::TellPong { payload },
                    frame => SessionAction::TellMessage { message: Message::from_wire(frame) },
                }
            },
            ReadOutcome::Failed(text) => {
                self.phase = Phase::Failing;
                SessionAction::TellError { error: WebSocketError::Protocol(text) }
            },
            ReadOutcome::Ended => self.wind_down(links),
        }
    }

    /// Takes the next step of the session.
    pub fn step(
        &mut self,
        rooms: &mut RoomManager,
        links: &mut Links,
        event: SessionEvent,
    ) -> (action: SessionAction)
        requires
            old(rooms).wf(),
            old(links).wf(),
        ensures
            final(rooms).wf(),
            final(links).wf(),
            final(links).issued() == old(links).issued(),
            session_step(
                old(self)@,
                event,
                final(self)@,
                action,
                old(links)@,
                final(links)@,
                old(rooms)@,
                final(rooms)@,
            ),
    {
        match (self.phase, event) {
            (Phase::Greeting, SessionEvent::ConnectTold { at }) => {
                self.last_read = at;
                self.phase = Phase::Reading;
                SessionAction::Wait
            },
            (Phase::Reading, SessionEvent::HeartbeatDue) => self.on_heartbeat(links),
            (Phase::Reading, SessionEvent::IdleElapsed) => self.wind_down(links),
            (Phase::Reading, SessionEvent::Read { at, outcome }) => {
                self.on_read(links, at, outcome)
            },
            (Phase::Reading, SessionEvent::PongReady { payload }) => {
                let _ = self.connection.send(links, Message::pong(payload));
                SessionAction::Wait
            },
            (Phase::Failing, SessionEvent::ErrorTold) => self.wind_down(links),
            (Phase::Draining, SessionEvent::WriterDone) => {
                self.connection.set_state(links, ConnectionState::Closed);
                self.phase = Phase::Departing;
                SessionAction::TellDisconnect
            },
            (Phase::Departing, SessionEvent::DisconnectTold) => {
                rooms.unregister_connection(self.connection.id.as_str());
                self.phase = Phase::Gone;
                SessionAction::Finished
            },
            _ => SessionAction::Nothing,
        }
    }
}

} // verus!
