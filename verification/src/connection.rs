//! Connections: what they are called, what state they are in, and how
//! messages reach them.

use crate::address::SocketAddr;
use crate::channel::{queue_filled, refused, send, sent_messages};
use crate::error::{WebSocketError, WebSocketResult};
use crate::message::{Message, MessageType, MessageView};
use crate::payload::bytes_content;
use bytes::Bytes;
use std::collections::HashMap;
use tokio::sync::mpsc::UnboundedSender;
use vstd::prelude::*;

verus! {

broadcast use vstd::std_specs::hash::group_hash_axioms;

/// The name of a connection.
pub type ConnectionId = String;

/// Where a connection is in its life.
#[derive(Debug, Clone, Copy, PartialEq, Eq, Structural)]
#[non_exhaustive]
pub enum ConnectionState {
    /// The connection is being established.
    Connecting,
    /// The connection is open and takes messages.
    Open,
    /// The connection is closing.
    Closing,
    /// The connection is closed.
    Closed,
}

/// The half of a connection that all its handles share. It has no queue any
/// more once that has been let go of.
struct Link {
    state: ConnectionState,
    sender: Option<UnboundedSender<Message>>,
}

/// The shared half of a connection as a value: its state, the messages queued
/// for it so far, whether its queue has refused one, which queue that is, and
/// whether it is held. One that has been let go of refuses everything.
pub struct LinkView {
    pub state: ConnectionState,
    pub sent: Seq<MessageView>,
    pub refused: bool,
    pub queue: int,
    pub held: bool,
}

impl Link {
    /// The value of a shared half. Of one without a queue, what was queued is
    /// known from before.
    spec fn value(self, past: LinkView) -> LinkView {
        match self.sender {
            Some(sender) => LinkView { state: self.state, ..fresh_link(sender) },
            None => LinkView { state: self.state, refused: true, held: false, ..past },
        }
    }
}

/// The shared halves of all connections. A connection handle names its half by
/// a number that is never given out twice. A half that is closed and has let go
/// of its queue takes up no room.
pub struct Links {
    entries: HashMap<u64, Link>,
    issued: u64,
    past: Ghost<Map<u64, LinkView>>,
}

impl View for Links {
    type V = Map<u64, LinkView>;

    closed spec fn view(&self) -> Map<u64, LinkView> {
        Map::new(
            |token: u64| token < self.issued,
            |token: u64|
                if self.entries@.contains_key(token) {
                    self.entries@[token].value(self.past@[token])
                } else {
                    LinkView {
                        state: ConnectionState::Closed,
                        refused: true,
                        held: false,
                        ..self.past@[token]
                    }
                },
        )
    }
}

impl Links {
    /// Every number in use has been given out.
    pub closed spec fn wf(self) -> bool {
        forall|token: u64| self.entries@.contains_key(token) ==> token < self.issued
    }

    /// How many numbers have been given out.
    pub closed spec fn issued(self) -> nat {
        self.issued as nat
    }

    /// No connections.
    pub fn new() -> (links: Links)
        ensures
            links.wf(),
            links@ == Map::<u64, LinkView>::empty(),
            links.issued() == 0,
    {
        let links = Links { entries: HashMap::new(), issued: 0, past: Ghost(Map::empty()) };
        assert(links@ =~= Map::<u64, LinkView>::empty());
        links
    }

    /// Whether there are numbers left to give out.
    pub fn has_room(&self) -> (yes: bool)
        ensures
            yes == (self.issued() < u64::MAX),
    {
        self.issued < u64::MAX
    }

    /// Lets go of the queue of a connection, which refuses every message from
    /// then on. Its handles still share its state.
    pub fn release(&mut self, connection: &Connection)
        requires
            old(self).wf(),
        ensures
            final(self).wf(),
            final(self).issued() == old(self).issued(),
            final(self)@ == released(old(self)@, connection@.link),
    {
        let token = connection.link.token;
        let ghost past = self@;
        match self.entries.remove(&token) {
            Some(link) => {
                proof {
                    self.past@ = self.past@.insert(token, past[token]);
                }
                match link.state {
                    ConnectionState::Closed => {},
                    state => {
                        self.entries.insert(token, Link { state, sender: None });
                    },
                }
            },
            None => {},
        }
        assert(self@ =~= released(past, token));
    }

    /// Takes in a new shared half, open, and gives it a number.
    fn open(&mut self, sender: UnboundedSender<Message>) -> (token: u64)
        requires
            old(self).wf(),
            old(self).issued() < u64::MAX,
        ensures
            final(self).wf(),
            final(self).issued() == old(self).issued() + 1,
            token == old(self).issued(),
            !old(self)@.contains_key(token),
            final(self)@ == old(self)@.insert(token, fresh_link(sender)),
    {
        let token = self.issued;
        self.entries.insert(token, Link { state: ConnectionState::Open, sender: Some(sender) });
        self.issued = token + 1;
        assert(self@ =~= old(self)@.insert(token, fresh_link(sender)));
        token
    }

    fn state_of(&self, token: u64) -> (state: ConnectionState)
        requires
            self.wf(),
        ensures
            state == link_state(self@, token),
    {
        match self.entries.get(&token) {
            Some(link) => link.state,
            None => ConnectionState::Closed,
        }
    }

    fn set_state_of(&mut self, token: u64, state: ConnectionState)
        requires
            old(self).wf(),
        ensures
            final(self).wf(),
            final(self).issued() == old(self).issued(),
            final(self)@ == with_state(old(self)@, token, state),
    {
        match self.entries.remove(&token) {
            Some(link) => {
                self.entries.insert(token, Link { state, ..link });
            },
            None => {
                if token < self.issued {
                    self.entries.insert(token, Link { state, sender: None });
                }
            },
        }
        assert(self@ =~= with_state(old(self)@, token, state));
    }

    /// Queues a message for a connection, whatever state it is in. One that has
    /// let go of its queue takes nothing.
    fn push(&mut self, token: u64, message: Message) -> (result: Result<(), String>)
        requires
            old(self).wf(),
        ensures
            final(self).wf(),
            final(self).issued() == old(self).issued(),
            pushed(old(self)@, final(self)@, token, message@, result is Ok),
            result matches Err(text) ==> text@ == "channel closed"@,
    {
        match self.entries.remove(&token) {
            Some(Link { state, sender: Some(sender) }) => {
                let mut sender = sender;
                let result = send(&mut sender, message);
                self.entries.insert(token, Link { state, sender: Some(sender) });
                assert(self@ =~= old(self)@.insert(
                    token,
                    (LinkView { state, ..fresh_link(sender) }),
                ));
                result
            },
            Some(link) => {
                self.entries.insert(token, link);
                assert(self@ =~= old(self)@);
                assert(self@ =~= old(self)@.insert(token, old(self)@[token]));
                Err("channel closed".to_owned())
            },
            None => {
                assert(self@ =~= old(self)@);
                assert(old(self)@.contains_key(token) ==> self@ =~= old(self)@.insert(
                    token,
                    old(self)@[token],
                ));
                Err("channel closed".to_owned())
            },
        }
    }
}

/// The shared half of a connection that has just been opened on this queue.
pub open spec fn fresh_link(sender: UnboundedSender<Message>) -> LinkView {
    LinkView {
        state: ConnectionState::Open,
        sent: sent_messages(sender),
        refused: refused(sender),
        queue: queue_filled(sender),
        held: true,
    }
}

/// The connections after one of them has let go of its queue.
pub open spec fn released(links: Map<u64, LinkView>, token: u64) -> Map<u64, LinkView> {
    if links.contains_key(token) {
        links.insert(token, LinkView { refused: true, held: false, ..links[token] })
    } else {
        links
    }
}

/// The state of the connection whose shared half has this number. A number that
/// was not given out stands for nothing, and reads as closed.
pub open spec fn link_state(links: Map<u64, LinkView>, token: u64) -> ConnectionState {
    if links.contains_key(token) {
        links[token].state
    } else {
        ConnectionState::Closed
    }
}

/// The connections after one of them has been put in a state.
pub open spec fn with_state(
    links: Map<u64, LinkView>,
    token: u64,
    state: ConnectionState,
) -> Map<u64, LinkView> {
    if links.contains_key(token) {
        links.insert(token, LinkView { state, ..links[token] })
    } else {
        links
    }
}

/// The message is queued behind those queued before, or it is refused, which
/// it is whenever an earlier one was. Either way the queue stays held if it was.
pub open spec fn pushed(
    before: Map<u64, LinkView>,
    after: Map<u64, LinkView>,
    token: u64,
    message: MessageView,
    accepted: bool,
) -> bool {
    let link = before[token];
    if !before.contains_key(token) {
        !accepted && after == before
    } else if accepted {
        &&& link.held
        &&& !link.refused
        &&& after == before.insert(token, LinkView { sent: link.sent.push(message), ..link })
    } else {
        after == before.insert(token, LinkView { refused: true, ..link })
    }
}

/// A message is offered to a connection: one that is not open does not take
/// it, and nothing changes; an open one queues it or refuses it.
pub open spec fn offered(
    before: Map<u64, LinkView>,
    after: Map<u64, LinkView>,
    token: u64,
    message: MessageView,
    accepted: bool,
) -> bool {
    if link_state(before, token) == ConnectionState::Open {
        pushed(before, after, token, message, accepted)
    } else {
        !accepted && after == before
    }
}

/// A connection is told to close: it is closing, and a close message is
/// offered to its queue.
pub open spec fn close_begun(
    before: Map<u64, LinkView>,
    after: Map<u64, LinkView>,
    token: u64,
) -> bool {
    exists|accepted: bool|
        #[trigger] pushed(
            with_state(before, token, ConnectionState::Closing),
            after,
            token,
            MessageView::bare(MessageType::Close),
            accepted,
        )
}

/// Why a message offered to a connection was not taken.
pub open spec fn offer_error(
    before: Map<u64, LinkView>,
    token: u64,
    error: WebSocketError,
) -> bool {
    if link_state(before, token) == ConnectionState::Open {
        error matches WebSocketError::Send(text) && text@ == "channel closed"@
    } else {
        error is ConnectionClosed
    }
}

/// Names the shared half of a connection.
#[derive(Debug, Clone, Copy, PartialEq, Eq, Structural)]
pub struct LinkKey {
    token: u64,
}

impl View for LinkKey {
    type V = u64;

    closed spec fn view(&self) -> u64 {
        self.token
    }
}

/// A handle to a connection. Handles to the same connection share its state
/// and its queue.
pub struct Connection {
    /// The name of the connection.
    pub id: ConnectionId,
    /// The address of the peer.
    pub remote_addr: Option<SocketAddr>,
    /// Which shared half is its own.
    pub link: LinkKey,
}

/// A connection handle as a value.
pub struct ConnectionView {
    pub id: Seq<char>,
    pub remote_addr: Option<SocketAddr>,
    pub link: u64,
}

impl View for Connection {
    type V = ConnectionView;

    open spec fn view(&self) -> ConnectionView {
        ConnectionView { id: self.id@, remote_addr: self.remote_addr, link: self.link@ }
    }
}

impl Connection {
    /// Opens a connection whose messages go on the given queue.
    pub fn new(
        links: &mut Links,
        id: ConnectionId,
        remote_addr: Option<SocketAddr>,
        sender: UnboundedSender<Message>,
    ) -> (connection: Connection)
        requires
            old(links).wf(),
            old(links).issued() < u64::MAX,
        ensures
            final(links).wf(),
            final(links).issued() == old(links).issued() + 1,
            connection@.id == id@,
            connection@.remote_addr == remote_addr,
            connection@.link == old(links).issued(),
            !old(links)@.contains_key(connection@.link),
            final(links)@ == old(links)@.insert(connection@.link, fresh_link(sender)),
            connection.id@ == id@,
            connection.remote_addr == remote_addr,
            final(links)@.contains_key(connection.link@),
            final(links)@[connection.link@].state == ConnectionState::Open,
            final(links)@[connection.link@].sent == sent_messages(sender),
            final(links)@[connection.link@].refused == refused(sender),
            final(links)@[connection.link@].queue == queue_filled(sender),
            final(links)@[connection.link@].held,
            forall|other: u64|
                #![trigger final(links)@[other]]
                #![trigger final(links)@.contains_key(other)]
                other != connection.link@ ==> final(links)@.contains_key(other)
                    == old(links)@.contains_key(other) && final(links)@[other]
                    == old(links)@[other],
    {
        let token = links.open(sender);
        Connection { id, remote_addr, link: LinkKey { token } }
    }

    /// The state of the connection.
    pub fn state(&self, links: &Links) -> (state: ConnectionState)
        requires
            links.wf(),
        ensures
            state == link_state(links@, self@.link),
            links@.contains_key(self.link@) ==> state == links@[self.link@].state,
            !links@.contains_key(self.link@) ==> state == ConnectionState::Closed,
    {
        links.state_of(self.link.token)
    }

    /// Whether the connection is open.
    pub fn is_open(&self, links: &Links) -> (yes: bool)
        requires
            links.wf(),
        ensures
            yes == (link_state(links@, self@.link) == ConnectionState::Open),
            yes <==> links@.contains_key(self.link@) && links@[self.link@].state
                == ConnectionState::Open,
    {
        self.state(links) == ConnectionState::Open
    }

    /// Queues a message for the peer. Only an open connection takes messages.
    pub fn send(&self, links: &mut Links, message: Message) -> (result: WebSocketResult<()>)
        requires
            old(links).wf(),
        ensures
            final(links).wf(),
            final(links).issued() == old(links).issued(),
            offered(old(links)@, final(links)@, self@.link, message@, result is Ok),
            result matches Err(error) ==> offer_error(old(links)@, self@.link, error),
    {
        if !self.is_open(links) {
            return Err(WebSocketError::ConnectionClosed);
        }
        match links.push(self.link.token, message) {
            Ok(()) => Ok(()),
            Err(text) => Err(WebSocketError::Send(text)),
        }
    }

    /// Queues a text message.
    pub fn send_text(&self, links: &mut Links, text: &str) -> (result: WebSocketResult<()>)
        requires
            old(links).wf(),
        ensures
            final(links).wf(),
            final(links).issued() == old(links).issued(),
            offered(
                old(links)@,
                final(links)@,
                self@.link,
                MessageView::text(text@),
                result is Ok,
            ),
            result matches Err(error) ==> offer_error(old(links)@, self@.link, error),
    {
        self.send(links, Message::text(text))
    }

    /// Queues a binary message.
    pub fn send_binary(&self, links: &mut Links, data: Bytes) -> (result: WebSocketResult<()>)
        requires
            old(links).wf(),
        ensures
            final(links).wf(),
            final(links).issued() == old(links).issued(),
            offered(
                old(links)@,
                final(links)@,
                self@.link,
                MessageView::binary(bytes_content(data)),
                result is Ok,
            ),
            result matches Err(error) ==> offer_error(old(links)@, self@.link, error),
    {
        self.send(links, Message::binary(data))
    }

    /// Queues a value that has been serialized as JSON, or passes on why it
    /// could not be.
    pub fn send_json(&self, links: &mut Links, encoded: Result<String, String>) -> (result:
        WebSocketResult<()>)
        requires
            old(links).wf(),
        ensures
            final(links).wf(),
            final(links).issued() == old(links).issued(),
            match encoded {
                Ok(json) => {
                    &&& offered(
                        old(links)@,
                        final(links)@,
                        self@.link,
                        MessageView::text(json@),
                        result is Ok,
                    )
                    &&& result matches Err(error) ==> offer_error(old(links)@, self@.link, error)
                },
                Err(text) => {
                    &&& result == Err::<(), _>(WebSocketError::Serialization(text))
                    &&& final(links)@ == old(links)@
                },
            },
    {
        let message = match Message::json(encoded) {
            Ok(message) => message,
            Err(error) => {
                return Err(error);
            },
        };
        self.send(links, message)
    }

    /// Closes the connection: it takes no more messages, and the peer is sent
    /// a close message if it can still be reached.
    pub fn close(&self, links: &mut Links)
        requires
            old(links).wf(),
        ensures
            final(links).wf(),
            final(links).issued() == old(links).issued(),
            close_begun(old(links)@, final(links)@, self@.link),
    {
        links.set_state_of(self.link.token, ConnectionState::Closing);
        let ghost closing = links@;
        let result = links.push(self.link.token, Message::close());
        assert(pushed(
            closing,
            links@,
            self@.link,
            MessageView::bare(MessageType::Close),
            result is Ok,
        ));
    }

    /// Puts the connection in a state.
    pub fn set_state(&self, links: &mut Links, state: ConnectionState)
        requires
            old(links).wf(),
        ensures
            final(links).wf(),
            final(links).issued() == old(links).issued(),
            final(links)@ == with_state(old(links)@, self@.link, state),
    {
        links.set_state_of(self.link.token, state);
    }
}

impl Clone for Connection {
    /// Another handle to the same connection.
    fn clone(&self) -> (copy: Self)
        ensures
            copy@ == self@,
            copy.id@ == self.id@,
            copy.remote_addr == self.remote_addr,
            copy.link == self.link,
    {
        Connection { id: self.id.clone(), remote_addr: self.remote_addr, link: self.link }
    }
}

/// Something happens to an established connection: a message is offered to it,
/// it is closed or put in a state other than open, or it lets go of its queue.
pub open spec fn link_step(before: Map<u64, LinkView>, after: Map<u64, LinkView>) -> bool {
    ||| exists|token: u64, message: MessageView, accepted: bool| #[trigger]
        offered(before, after, token, message, accepted)
    ||| exists|token: u64| #[trigger] close_begun(before, after, token)
    ||| exists|token: u64, state: ConnectionState|
        state != ConnectionState::Open && after == #[trigger] with_state(before, token, state)
    ||| exists|token: u64| after == #[trigger] released(before, token)
}

/// The shared half of a connection is there for good, on the same queue, and
/// holds it until it is released.
pub proof fn connection_keeps_its_link(
    before: Map<u64, LinkView>,
    after: Map<u64, LinkView>,
    token: u64,
)
    requires
        link_step(before, after),
        before.contains_key(token),
    ensures
        after.contains_key(token),
        after[token].queue == before[token].queue,
        after[token].held == before[token].held || after == released(before, token),
{
}

/// A connection that is not open never opens again.
pub proof fn connection_never_reopens(
    before: Map<u64, LinkView>,
    after: Map<u64, LinkView>,
    token: u64,
)
    requires
        link_step(before, after),
        link_state(before, token) != ConnectionState::Open,
    ensures
        link_state(after, token) != ConnectionState::Open,
{
}

/// What has been queued for a connection stays queued, in order.
pub proof fn queued_messages_stay_queued(
    before: Map<u64, LinkView>,
    after: Map<u64, LinkView>,
    token: u64,
)
    requires
        link_step(before, after),
        before.contains_key(token),
    ensures
        before[token].sent.is_prefix_of(after[token].sent),
{
}

/// Whatever happens to one connection leaves every other as it was.
pub proof fn connections_are_independent(
    before: Map<u64, LinkView>,
    after: Map<u64, LinkView>,
    token: u64,
    other: u64,
    message: MessageView,
    accepted: bool,
    state: ConnectionState,
)
    requires
        token != other,
        ({
            ||| offered(before, after, token, message, accepted)
            ||| close_begun(before, after, token)
            ||| after == with_state(before, token, state)
            ||| after == released(before, token)
        }),
    ensures
        before.contains_key(other) == after.contains_key(other),
        before.contains_key(other) ==> before[other] == after[other],
{
}

/// Sending changes nothing but the queue. A message is queued, once, or nothing
/// is. An open connection that holds its queue fails to send only when the queue
/// refuses, and goes on holding it.
pub proof fn sending_changes_only_the_queue(
    before: Map<u64, LinkView>,
    after: Map<u64, LinkView>,
    token: u64,
    message: MessageView,
    accepted: bool,
)
    requires
        before.contains_key(token),
        offered(before, after, token, message, accepted),
    ensures
        after[token].state == before[token].state,
        after[token].queue == before[token].queue,
        after[token].held == before[token].held,
        after[token].sent == if accepted {
            before[token].sent.push(message)
        } else {
            before[token].sent
        },
        after[token].refused == (before[token].refused || (before[token].state
            == ConnectionState::Open && !accepted)),
        accepted ==> before[token].state == ConnectionState::Open && before[token].held
            && !before[token].refused,
{
}

/// Handles to the same connection see the same state, whatever happens: what one
/// of them sets, the other reads.
pub proof fn handles_share_state(
    links: Map<u64, LinkView>,
    one: ConnectionView,
    other: ConnectionView,
    state: ConnectionState,
)
    requires
        one.link == other.link,
        links.contains_key(one.link),
    ensures
        link_state(links, one.link) == link_state(links, other.link),
        link_state(with_state(links, one.link, state), other.link) == state,
{
}

/// When one handle closes a connection, another reads it as closing and gets no
/// message through.
pub proof fn closing_one_handle_closes_all(
    before: Map<u64, LinkView>,
    after: Map<u64, LinkView>,
    later: Map<u64, LinkView>,
    one: ConnectionView,
    other: ConnectionView,
    message: MessageView,
    accepted: bool,
)
    requires
        one.link == other.link,
        before.contains_key(one.link),
        close_begun(before, after, one.link),
        offered(after, later, other.link, message, accepted),
    ensures
        link_state(after, other.link) == ConnectionState::Closing,
        !accepted,
        later == after,
        forall|error: WebSocketError| #[trigger]
            offer_error(after, other.link, error) ==> error is ConnectionClosed,
{
}

/// Handles to the same connection share its queue: what one of them sends
/// stands last on the queue of the other.
pub proof fn handles_share_a_queue(
    before: Map<u64, LinkView>,
    after: Map<u64, LinkView>,
    one: ConnectionView,
    other: ConnectionView,
    message: MessageView,
)
    requires
        one.link == other.link,
        offered(before, after, one.link, message, true),
    ensures
        after[other.link].sent == before[other.link].sent.push(message),
{
}

/// Once a connection is told to close, no handle to it gets another message
/// through, and trying changes nothing.
pub proof fn closed_connection_takes_nothing(
    before: Map<u64, LinkView>,
    after: Map<u64, LinkView>,
    later: Map<u64, LinkView>,
    token: u64,
    message: MessageView,
    accepted: bool,
)
    requires
        close_begun(before, after, token),
        offered(after, later, token, message, accepted),
    ensures
        link_state(after, token) != ConnectionState::Open,
        !accepted,
        later == after,
{
}

/// What sending comes to, whatever the message: it goes through only on an open
/// connection whose queue is held and has not refused, and then stands last on
/// that queue, once. Otherwise no queue has changed. Nothing else changes but
/// that an open connection that did not take it has refused.
pub proof fn sending_queues_the_message_or_nothing(
    before: Map<u64, LinkView>,
    after: Map<u64, LinkView>,
    token: u64,
    message: MessageView,
    accepted: bool,
    other: u64,
)
    requires
        offered(before, after, token, message, accepted),
    ensures
        accepted ==> {
            &&& before.contains_key(token)
            &&& before[token].state == ConnectionState::Open
            &&& before[token].held
            &&& !before[token].refused
            &&& after[token].sent.len() == before[token].sent.len() + 1
            &&& after[token].sent.last() == message
            &&& after[token].sent.drop_last() == before[token].sent
            &&& !after[token].refused
        },
        !accepted ==> after[token].sent == before[token].sent,
        !accepted && before.contains_key(token) && before[token].state == ConnectionState::Open
            ==> after[token].refused,
        !before.contains_key(token) || before[token].state != ConnectionState::Open ==> !accepted
            && after == before,
        after.contains_key(other) == before.contains_key(other),
        after[other].state == before[other].state,
        after[other].queue == before[other].queue,
        after[other].held == before[other].held,
        other != token ==> after[other] == before[other],
{
    if accepted {
        assert(after[token].sent.drop_last() =~= before[token].sent);
    }
}

/// Why sending fails: a connection that is not open is closed, and an open one
/// has a closed channel. One or the other, never both.
pub proof fn send_errors_tell_why(
    before: Map<u64, LinkView>,
    token: u64,
    error: WebSocketError,
)
    requires
        offer_error(before, token, error),
    ensures
        (before.contains_key(token) && before[token].state == ConnectionState::Open)
            <==> error is Send,
        !(before.contains_key(token) && before[token].state == ConnectionState::Open)
            <==> error is ConnectionClosed,
        error matches WebSocketError::Send(text) ==> text@ == "channel closed"@,
{
}

/// What closing comes to: the connection is closing, whatever it was, and a close
/// message without a payload stands last on its queue, unless the queue refuses.
/// No other connection changes.
pub proof fn closing_queues_a_close_message(
    before: Map<u64, LinkView>,
    after: Map<u64, LinkView>,
    token: u64,
    other: u64,
)
    requires
        close_begun(before, after, token),
    ensures
        before.contains_key(token) ==> {
            &&& after[token].state == ConnectionState::Closing
            &&& after[token].refused ==> after[token].sent == before[token].sent
            &&& !after[token].refused ==> {
                &&& !before[token].refused
                &&& before[token].held
                &&& after[token].sent.len() == before[token].sent.len() + 1
                &&& after[token].sent.last().message_type == MessageType::Close
                &&& after[token].sent.last().payload.len() == 0
                &&& after[token].sent.drop_last() == before[token].sent
            }
        },
        !before.contains_key(token) ==> after == before,
        after.contains_key(other) == before.contains_key(other),
        after[other].queue == before[other].queue,
        after[other].held == before[other].held,
        before[other].refused ==> after[other].refused,
        other != token ==> after[other] == before[other],
{
    if before.contains_key(token) && !after[token].refused {
        assert(after[token].sent.drop_last() =~= before[token].sent);
    }
}

/// Putting a connection in a state changes that state, and nothing else; letting
/// go of its queue changes nothing else but that it refuses.
pub proof fn states_and_queues_change_alone(
    links: Map<u64, LinkView>,
    token: u64,
    state: ConnectionState,
    other: u64,
)
    ensures
        links.contains_key(token) ==> link_state(links, token) == links[token].state,
        !links.contains_key(token) ==> link_state(links, token) == ConnectionState::Closed,
        with_state(links, token, state).contains_key(other) == links.contains_key(other),
        links.contains_key(token) ==> with_state(links, token, state)[token].state == state,
        with_state(links, token, state)[other].sent == links[other].sent,
        with_state(links, token, state)[other].refused == links[other].refused,
        with_state(links, token, state)[other].queue == links[other].queue,
        with_state(links, token, state)[other].held == links[other].held,
        other != token ==> with_state(links, token, state)[other] == links[other],
        released(links, token).contains_key(other) == links.contains_key(other),
        links.contains_key(token) ==> released(links, token)[token].refused && !released(
            links,
            token,
        )[token].held,
        released(links, token)[other].state == links[other].state,
        released(links, token)[other].sent == links[other].sent,
        released(links, token)[other].queue == links[other].queue,
        other != token ==> released(links, token)[other] == links[other],
{
}

} // verus!
