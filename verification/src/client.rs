//! Connecting to a server.

use crate::channel::{
    messages_among, queue, queue_drained, queue_filled, refused, send, sent_messages,
    taken_messages, try_receive,
};
use crate::error::{WebSocketError, WebSocketResult};
use crate::limits::{config_limited_to, limited_to};
use crate::message::{Message, MessageType, MessageView, ReadOutcome, ReadView, WireView};
use crate::payload::bytes_content;
use crate::time::seconds;
use bytes::Bytes;
use std::time::Duration;
use tokio::sync::mpsc::{UnboundedReceiver, UnboundedSender};
use tungstenite::protocol::WebSocketConfig;
use vstd::prelude::*;

verus! {

/// What `url::Url::parse` makes of a text: the URL in its normal form, or the
/// words that say why there is none.
pub uninterp spec fn parsed_url(text: Seq<char>) -> Result<Seq<char>, Seq<char>>;

/// The texts of a result.
pub open spec fn result_texts(result: Result<String, String>) -> Result<Seq<char>, Seq<char>> {
    match result {
        Ok(text) => Ok(text@),
        Err(text) => Err(text@),
    }
}

/// `url::Url::parse`: the normal form of a URL (`Url::as_str`), or the words
/// of the error.
#[verifier::external_body]
fn parse_url(text: &str) -> (parsed: Result<String, String>)
    ensures
        result_texts(parsed) == parsed_url(text@),
{
    match url::Url::parse(text) {
        Ok(url) => Ok(url.as_str().to_string()),
        Err(error) => Err(error.to_string()),
    }
}

/// Builds a client.
#[derive(Debug)]
pub struct WebSocketClientBuilder {
    url: Option<String>,
    connect_timeout: Duration,
    max_message_size: Option<usize>,
}

/// What a client is to be like.
pub struct ClientSettings {
    pub url: Option<Seq<char>>,
    pub connect_timeout: Duration,
    pub max_message_size: Option<usize>,
}

impl ClientSettings {
    /// No URL, half a minute to connect, and no limit on messages of its own.
    pub open spec fn initial() -> ClientSettings {
        ClientSettings { url: None, connect_timeout: seconds(30), max_message_size: None }
    }
}

impl View for WebSocketClientBuilder {
    type V = ClientSettings;

    closed spec fn view(&self) -> ClientSettings {
        ClientSettings {
            url: match self.url {
                Some(url) => Some(url@),
                None => None,
            },
            connect_timeout: self.connect_timeout,
            max_message_size: self.max_message_size,
        }
    }
}

impl Default for WebSocketClientBuilder {
    fn default() -> (builder: WebSocketClientBuilder)
        ensures
            builder@ == ClientSettings::initial(),
            builder@.url is None,
            builder@.connect_timeout == seconds(30),
            builder@.max_message_size is None,
    {
        WebSocketClientBuilder {
            url: None,
            connect_timeout: Duration::from_secs(30),
            max_message_size: None,
        }
    }
}

impl Clone for WebSocketClientBuilder {
    fn clone(&self) -> (copy: WebSocketClientBuilder)
        ensures
            copy@ == self@,
    {
        WebSocketClientBuilder {
            url: match &self.url {
                Some(url) => Some(url.clone()),
                None => None,
            },
            connect_timeout: self.connect_timeout,
            max_message_size: self.max_message_size,
        }
    }
}

/// What it takes to connect: where to, how long to try, and the settings of
/// the WebSocket unless they are the default ones.
pub struct ConnectRequest {
    /// The URL, in its normal form.
    pub url: String,
    /// How long to try.
    pub timeout: Duration,
    /// The settings of the WebSocket.
    pub config: Option<WebSocketConfig>,
}

/// The request that comes of a URL that has been parsed. A limit on messages
/// holds for frames too.
pub open spec fn requests(
    parsed: Result<Seq<char>, Seq<char>>,
    timeout: Duration,
    max_message_size: Option<usize>,
    result: WebSocketResult<ConnectRequest>,
) -> bool {
    match parsed {
        Ok(url) => {
            &&& result matches Ok(request)
            &&& request.url@ == url
            &&& request.timeout == timeout
            &&& match max_message_size {
                Some(size) => request.config matches Some(config) && limited_to(config, size),
                None => request.config is None,
            }
        },
        Err(text) => result matches Err(WebSocketError::InvalidUrl(detail)) && detail@ == text,
    }
}

impl WebSocketClientBuilder {
    /// A builder with the initial settings.
    pub fn new() -> (builder: WebSocketClientBuilder)
        ensures
            builder@ == ClientSettings::initial(),
            builder@.url is None,
            builder@.connect_timeout == seconds(30),
            builder@.max_message_size is None,
    {
        WebSocketClientBuilder::default()
    }

    /// Sets the URL to connect to.
    pub fn url(self, url: &str) -> (builder: WebSocketClientBuilder)
        ensures
            builder@ == (ClientSettings { url: Some(url@), ..self@ }),
    {
        WebSocketClientBuilder { url: Some(url.to_owned()), ..self }
    }

    /// Sets how long to try.
    pub fn connect_timeout(self, timeout: Duration) -> (builder: WebSocketClientBuilder)
        ensures
            builder@ == (ClientSettings { connect_timeout: timeout, ..self@ }),
    {
        WebSocketClientBuilder { connect_timeout: timeout, ..self }
    }

    /// Sets the largest message to accept.
    pub fn max_message_size(self, size: usize) -> (builder: WebSocketClientBuilder)
        ensures
            builder@ == (ClientSettings { max_message_size: Some(size), ..self@ }),
    {
        WebSocketClientBuilder { max_message_size: Some(size), ..self }
    }

    /// What it takes to connect. There has to be a URL.
    pub fn connect(self) -> (result: WebSocketResult<ConnectRequest>)
        ensures
            match self@.url {
                Some(url) => requests(
                    parsed_url(url),
                    self@.connect_timeout,
                    self@.max_message_size,
                    result,
                ),
                None => result matches Err(WebSocketError::InvalidUrl(detail)) && detail@
                    == "URL not provided"@,
            },
    {
        match self.url {
            Some(url) => WebSocketClient::connect_with_config(
                url.as_str(),
                self.connect_timeout,
                self.max_message_size,
            ),
            None => Err(WebSocketError::InvalidUrl("URL not provided".to_owned())),
        }
    }
}

/// What came of trying to connect.
pub enum ConnectOutcome {
    /// The connection stands.
    Established,
    /// It was refused or broke off, for the reason in the text.
    Failed(String),
    /// It took too long.
    TimedOut,
}

/// A client of a server.
pub struct WebSocketClient {
    tx: UnboundedSender<Message>,
    rx: UnboundedReceiver<Message>,
    closed: bool,
}

/// A client as a value: what it has queued for the server, whether its queue
/// has refused a message, what it has received, what it got each time it tried
/// to receive, whether it is closed, and on which queues it sends and receives.
pub struct ClientView {
    pub sent: Seq<MessageView>,
    pub refused: bool,
    pub received: Seq<MessageView>,
    pub tries: Seq<Option<MessageView>>,
    pub closed: bool,
    pub outgoing: int,
    pub incoming: int,
}

impl View for WebSocketClient {
    type V = ClientView;

    closed spec fn view(&self) -> ClientView {
        ClientView {
            sent: sent_messages(self.tx),
            refused: refused(self.tx),
            received: messages_among(taken_messages(self.rx)),
            tries: taken_messages(self.rx),
            closed: self.closed,
            outgoing: queue_filled(self.tx),
            incoming: queue_drained(self.rx),
        }
    }
}

/// A message goes on the client's queue, or is refused, which it is whenever
/// an earlier one was.
pub open spec fn client_pushed(
    before: ClientView,
    after: ClientView,
    message: MessageView,
    accepted: bool,
) -> bool {
    if accepted {
        &&& !before.refused
        &&& after == ClientView { sent: before.sent.push(message), ..before }
    } else {
        after == ClientView { refused: true, ..before }
    }
}

/// What comes of sending a message. A closed client sends nothing.
pub open spec fn client_sent(
    before: ClientView,
    after: ClientView,
    message: MessageView,
    result: WebSocketResult<()>,
) -> bool {
    if before.closed {
        &&& result == Err::<(), _>(WebSocketError::ConnectionClosed)
        &&& after == before
    } else {
        &&& client_pushed(before, after, message, result is Ok)
        &&& result matches Err(error) ==> error matches WebSocketError::Send(text) && text@
            == "channel closed"@
    }
}

/// A client is closed. Unless it was closed already, a close message goes on
/// its queue if that still takes one.
pub open spec fn client_closed(before: ClientView, after: ClientView) -> bool {
    if before.closed {
        after == before
    } else {
        exists|accepted: bool| #[trigger]
            client_pushed(
                ClientView { closed: true, ..before },
                after,
                MessageView::bare(MessageType::Close),
                accepted,
            )
    }
}

/// A client that got this each time it tried to receive, and goes on receiving
/// from this queue.
pub open spec fn received_from(
    before: ClientView,
    tries: Seq<Option<MessageView>>,
    incoming: int,
) -> ClientView {
    ClientView { received: messages_among(tries), tries, incoming, ..before }
}

/// A client after a step of its reader or writer: it is closed if the one or the
/// other has ended.
pub open spec fn client_told(before: ClientView, ended: bool) -> ClientView {
    ClientView { closed: before.closed || ended, ..before }
}

/// A client that has just connected, on these queues.
pub open spec fn new_client(outgoing: int, incoming: int) -> ClientView {
    ClientView {
        sent: Seq::empty(),
        refused: false,
        received: Seq::empty(),
        tries: Seq::empty(),
        closed: false,
        outgoing,
        incoming,
    }
}

impl WebSocketClient {
    /// A builder for a client.
    pub fn builder() -> (builder: WebSocketClientBuilder)
        ensures
            builder@ == ClientSettings::initial(),
            builder@.url is None,
            builder@.connect_timeout == seconds(30),
            builder@.max_message_size is None,
    {
        WebSocketClientBuilder::new()
    }

    /// What it takes to connect within half a minute.
    pub fn connect(url: &str) -> (result: WebSocketResult<ConnectRequest>)
        ensures
            requests(parsed_url(url@), seconds(30), None, result),
    {
        WebSocketClient::connect_with_timeout(url, Duration::from_secs(30))
    }

    /// What it takes to connect within a given time.
    pub fn connect_with_timeout(url: &str, timeout: Duration) -> (result: WebSocketResult<
        ConnectRequest,
    >)
        ensures
            requests(parsed_url(url@), timeout, None, result),
    {
        WebSocketClient::connect_with_config(url, timeout, None)
    }

    /// What it takes to connect within a given time and with a limit on
    /// messages.
    pub fn connect_with_config(
        url: &str,
        timeout: Duration,
        max_message_size: Option<usize>,
    ) -> (result: WebSocketResult<ConnectRequest>)
        ensures
            requests(parsed_url(url@), timeout, max_message_size, result),
    {
        WebSocketClient::request(parse_url(url), timeout, max_message_size)
    }

    /// What it takes to connect to a URL that has been parsed.
    pub fn request(
        parsed: Result<String, String>,
        timeout: Duration,
        max_message_size: Option<usize>,
    ) -> (result: WebSocketResult<ConnectRequest>)
        ensures
            requests(result_texts(parsed), timeout, max_message_size, result),
    {
        match parsed {
            Ok(url) => {
                let config = match max_message_size {
                    Some(size) => Some(config_limited_to(size)),
                    None => None,
                };
                Ok(ConnectRequest { url, timeout, config })
            },
            Err(text) => Err(WebSocketError::InvalidUrl(text)),
        }
    }

    /// The client that comes of trying to connect, with the queue for its
    /// writer and with its reader: the writer drains the queue that the client
    /// sends on, and the reader fills the one that the client receives from.
    pub fn establish(outcome: ConnectOutcome) -> (result: WebSocketResult<
        (WebSocketClient, UnboundedReceiver<Message>, ClientReader),
    >)
        ensures
            match outcome {
                ConnectOutcome::Established => {
                    &&& result matches Ok(parts)
                    &&& parts.0@ == new_client(queue_drained(parts.1), parts.2@.queue)
                    &&& taken_messages(parts.1) == Seq::<Option<MessageView>>::empty()
                    &&& parts.2@.delivered == Seq::<MessageView>::empty()
                    &&& !parts.2@.refused
                },
                ConnectOutcome::Failed(text) => result matches Err(error) && error
                    == WebSocketError::Protocol(text),
                ConnectOutcome::TimedOut => result matches Err(error) && error is Timeout,
            },
            outcome is Established <==> result is Ok,
            (result matches Ok(parts) ==> {
                &&& !parts.0@.closed
                &&& !parts.0@.refused
                &&& parts.0@.sent.len() == 0
                &&& parts.0@.received.len() == 0
                &&& parts.0@.tries.len() == 0
                &&& parts.0@.outgoing == queue_drained(parts.1)
                &&& parts.0@.incoming == parts.2@.queue
            }),
    {
        match outcome {
            ConnectOutcome::Established => {
                let (tx, outgoing) = queue();
                let (inbox, rx) = queue();
                Ok((WebSocketClient { tx, rx, closed: false }, outgoing, ClientReader { inbox }))
            },
            ConnectOutcome::Failed(text) => Err(WebSocketError::Protocol(text)),
            ConnectOutcome::TimedOut => Err(WebSocketError::Timeout),
        }
    }

    /// Queues a message for the server.
    pub fn send(&mut self, message: Message) -> (result: WebSocketResult<()>)
        ensures
            client_sent(old(self)@, final(self)@, message@, result),
    {
        if self.closed {
            return Err(WebSocketError::ConnectionClosed);
        }
        match send(&mut self.tx, message) {
            Ok(()) => Ok(()),
            Err(text) => Err(WebSocketError::Send(text)),
        }
    }

    /// Queues a text message.
    pub fn send_text(&mut self, text: &str) -> (result: WebSocketResult<()>)
        ensures
            client_sent(old(self)@, final(self)@, MessageView::text(text@), result),
    {
        self.send(Message::text(text))
    }

    /// Queues a binary message.
    pub fn send_binary(&mut self, data: Bytes) -> (result: WebSocketResult<()>)
        ensures
            client_sent(
                old(self)@,
                final(self)@,
                MessageView::binary(bytes_content(data)),
                result,
            ),
    {
        self.send(Message::binary(data))
    }

    /// Queues a value that has been serialized as JSON, or passes on why it
    /// could not be.
    pub fn send_json(&mut self, encoded: Result<String, String>) -> (result: WebSocketResult<()>)
        ensures
            match encoded {
                Ok(json) => client_sent(
                    old(self)@,
                    final(self)@,
                    MessageView::text(json@),
                    result,
                ),
                Err(text) => {
                    &&& result == Err::<(), _>(WebSocketError::Serialization(text))
                    &&& final(self)@ == old(self)@
                },
            },
    {
        let message = match Message::json(encoded) {
            Ok(message) => message,
            Err(error) => {
                return Err(error);
            },
        };
        self.send(message)
    }

    /// Takes the next message that has come from the server, if there is one:
    /// asks the queue once, and gives what it gave.
    pub fn try_recv(&mut self) -> (message: Option<Message>)
        ensures
            final(self)@ == (ClientView {
                received: match message {
                    Some(message) => old(self)@.received.push(message@),
                    None => old(self)@.received,
                },
                tries: old(self)@.tries.push(
                    match message {
                        Some(message) => Some(message@),
                        None => None,
                    },
                ),
                ..old(self)@
            }),
    {
        let message = try_receive(&mut self.rx);
        assert(self@.tries.drop_last() =~= old(self)@.tries);
        message
    }

    /// The queue of messages from the server, to wait on.
    pub fn receiver(&mut self) -> (receiver: &mut UnboundedReceiver<Message>)
        ensures
            taken_messages(*receiver) == old(self)@.tries,
            queue_drained(*receiver) == old(self)@.incoming,
            final(self)@ == received_from(
                old(self)@,
                taken_messages(*final(receiver)),
                queue_drained(*final(receiver)),
            ),
    {
        &mut self.rx
    }

    /// Closes the client. Only the first time is the server told.
    pub fn close(&mut self)
        ensures
            client_closed(old(self)@, final(self)@),
    {
        if !self.closed {
            self.closed = true;
            let ghost before = self@;
            let result = send(&mut self.tx, Message::close());
            assert(client_pushed(
                before,
                self@,
                MessageView::bare(MessageType::Close),
                result is Ok,
            ));
        }
    }

    /// Notes that the reader or the writer has gone a step, and whether it has
    /// ended.
    pub(crate) fn note(&mut self, ended: bool)
        ensures
            final(self)@ == client_told(old(self)@, ended),
    {
        if ended {
            self.closed = true;
        }
    }

    /// Whether the client is closed.
    pub fn is_closed(&self) -> (yes: bool)
        ensures
            yes == self@.closed,
    {
        self.closed
    }
}

/// Passes on what a client reads.
pub struct ClientReader {
    inbox: UnboundedSender<Message>,
}

/// What a reader has passed on, whether a message was refused, and on which
/// queue.
pub struct InboxView {
    pub delivered: Seq<MessageView>,
    pub refused: bool,
    pub queue: int,
}

impl View for ClientReader {
    type V = InboxView;

    closed spec fn view(&self) -> InboxView {
        InboxView {
            delivered: sent_messages(self.inbox),
            refused: refused(self.inbox),
            queue: queue_filled(self.inbox),
        }
    }
}

/// A message is passed on, or refused, which it is whenever an earlier one was.
pub open spec fn passed_on(
    before: InboxView,
    after: InboxView,
    message: MessageView,
    accepted: bool,
) -> bool {
    if accepted {
        &&& !before.refused
        &&& after == InboxView { delivered: before.delivered.push(message), ..before }
    } else {
        after == InboxView { refused: true, ..before }
    }
}

/// What a reader does with what was read. A close frame is passed on as a close
/// message, an error or the end of the stream is not passed on, and each of
/// these ends the reading; so does a message that nobody takes.
pub open spec fn reader_step(
    before: InboxView,
    outcome: ReadView,
    after: InboxView,
    goes_on: bool,
) -> bool {
    match outcome {
        ReadView::Frame(WireView::Close) => {
            &&& !goes_on
            &&& exists|accepted: bool| #[trigger]
                passed_on(before, after, MessageView::bare(MessageType::Close), accepted)
        },
        ReadView::Frame(frame) => passed_on(before, after, frame.message(), goes_on),
        _ => !goes_on && after == before,
    }
}

impl ClientReader {
    /// Passes on what was read, and tells whether to read on. Reading ends with
    /// a close frame, an error or the end of the stream, and when nobody takes
    /// the messages any more. Then the client is closed.
    pub fn reader_task(&mut self, client: &mut WebSocketClient, outcome: ReadOutcome) -> (goes_on:
        bool)
        ensures
            reader_step(old(self)@, outcome@, final(self)@, goes_on),
            final(client)@ == client_told(old(client)@, !goes_on),
    {
        let goes_on = self.pass_on(outcome);
        client.note(!goes_on);
        goes_on
    }

    /// Passes on what was read, and tells whether to read on.
    fn pass_on(&mut self, outcome: ReadOutcome) -> (goes_on: bool)
        ensures
            reader_step(old(self)@, outcome@, final(self)@, goes_on),
    {
        match outcome {
            ReadOutcome::Frame(frame) => {
                if frame.is_close() {
                    let result = send(&mut self.inbox, Message::close());
                    assert(passed_on(
                        old(self)@,
                        self@,
                        MessageView::bare(MessageType::Close),
                        result is Ok,
                    ));
                    false
                } else {
                    send(&mut self.inbox, Message::from_wire(frame)).is_ok()
                }
            },
            _ => false,
        }
    }
}

/// What a reader passes on, as long as there is somebody to take it: the message
/// of each frame, in order, up to the first close frame, error or end of the
/// stream, and a close message if it was a close frame. By then the client is
/// closed.
pub proof fn reading_delivers_every_frame_up_to_the_end(
    inboxes: Seq<InboxView>,
    outcomes: Seq<ReadView>,
    client: ClientView,
    client_after: ClientView,
)
    requires
        outcomes.len() > 0,
        inboxes.len() == outcomes.len() + 1,
        forall|i: int|
            0 <= i < outcomes.len() - 1 ==> reader_step(
                inboxes[i],
                #[trigger] outcomes[i],
                inboxes[i + 1],
                true,
            ),
        reader_step(inboxes[outcomes.len() - 1], outcomes.last(), inboxes.last(), false),
        !inboxes.last().refused,
        client_after == client_told(client, true),
    ensures
        forall|i: int|
            0 <= i < outcomes.len() - 1 ==> (#[trigger] outcomes[i] matches ReadView::Frame(frame)
                && frame != WireView::Close),
        outcomes.last() == ReadView::Frame(WireView::Close) || outcomes.last() is Failed
            || outcomes.last() is Ended,
        inboxes.last().delivered == inboxes[0].delivered + outcomes.drop_last().map_values(
            |outcome: ReadView| outcome->Frame_0.message(),
        ) + if outcomes.last() is Frame {
            seq![MessageView::bare(MessageType::Close)]
        } else {
            Seq::empty()
        },
        client_after.closed,
{
    let last = outcomes.len() - 1;
    lemma_frames_delivered(inboxes.drop_last(), outcomes.drop_last());
    assert(inboxes.drop_last().last() == inboxes[last]);
    assert forall|i: int| 0 <= i < last implies (#[trigger] outcomes[i] matches ReadView::Frame(
        frame,
    ) && frame != WireView::Close) by {
        assert(reader_step(inboxes[i], outcomes[i], inboxes[i + 1], true));
    }
}

/// What a reader that reads on has passed on.
proof fn lemma_frames_delivered(inboxes: Seq<InboxView>, outcomes: Seq<ReadView>)
    requires
        inboxes.len() == outcomes.len() + 1,
        forall|i: int|
            0 <= i < outcomes.len() ==> reader_step(
                inboxes[i],
                #[trigger] outcomes[i],
                inboxes[i + 1],
                true,
            ),
    ensures
        inboxes.last().delivered == inboxes[0].delivered + outcomes.map_values(
            |outcome: ReadView| outcome->Frame_0.message(),
        ),
    decreases outcomes.len(),
{
    let messages = outcomes.map_values(|outcome: ReadView| outcome->Frame_0.message());
    if outcomes.len() == 0 {
        assert(messages =~= Seq::<MessageView>::empty());
    } else {
        let last = outcomes.len() - 1;
        assert forall|i: int| 0 <= i < last implies reader_step(
            inboxes.drop_last()[i],
            #[trigger] outcomes.drop_last()[i],
            inboxes.drop_last()[i + 1],
            true,
        ) by {
            assert(reader_step(inboxes[i], outcomes[i], inboxes[i + 1], true));
        }
        lemma_frames_delivered(inboxes.drop_last(), outcomes.drop_last());
        assert(reader_step(inboxes[last], outcomes[last], inboxes[last + 1], true));
        assert(inboxes.last() == inboxes[last + 1]);
        assert(messages =~= outcomes.drop_last().map_values(
            |outcome: ReadView| outcome->Frame_0.message(),
        ).push(messages[last]));
    }
}

/// However often a client is closed, at most one close message goes on its
/// queue, and nothing else does.
pub proof fn closing_sends_at_most_one_close_message(states: Seq<ClientView>, times: nat)
    requires
        states.len() == times + 1,
        forall|i: int| 0 <= i < times ==> client_closed(#[trigger] states[i], states[i + 1]),
    ensures
        times > 0 ==> states.last().closed,
        states[0].closed ==> states.last() == states[0],
        states.last().sent == states[0].sent || states.last().sent == states[0].sent.push(
            MessageView::bare(MessageType::Close),
        ),
        times > 0 && !states[0].closed && !states.last().refused ==> states.last().sent
            == states[0].sent.push(MessageView::bare(MessageType::Close)),
    decreases times,
{
    if times > 0 {
        let last = times - 1;
        assert(client_closed(states[last], states[last + 1]));
        assert(states.last() == states[last + 1]);
        assert forall|i: int| 0 <= i < last implies client_closed(
            #[trigger] states.drop_last()[i],
            states.drop_last()[i + 1],
        ) by {
            assert(client_closed(states[i], states[i + 1]));
        }
        closing_sends_at_most_one_close_message(states.drop_last(), last as nat);
    }
}

/// Something happens to a client: it sends a message, receives from its queue, is
/// closed, or its reader or writer goes a step.
pub open spec fn client_step(before: ClientView, after: ClientView) -> bool {
    ||| exists|message: MessageView, result: WebSocketResult<()>| #[trigger]
        client_sent(before, after, message, result)
    ||| exists|tries: Seq<Option<MessageView>>, incoming: int|
        after == #[trigger] received_from(before, tries, incoming)
    ||| client_closed(before, after)
    ||| exists|ended: bool| after == #[trigger] client_told(before, ended)
}

/// A closed client stays closed, and nothing more goes on its queue.
pub proof fn closed_client_stays_closed(before: ClientView, after: ClientView)
    requires
        before.closed,
        client_step(before, after),
    ensures
        after.closed,
        after.sent == before.sent,
{
}

/// Once the reader or the writer of a client has ended, for whatever reason, the
/// client is closed, and it stays so whatever happens to it.
pub proof fn client_is_closed_once_a_task_has_ended(states: Seq<ClientView>, end: int, later: int)
    requires
        0 <= end < later < states.len(),
        forall|i: int|
            0 <= i < states.len() - 1 ==> client_step(#[trigger] states[i], states[i + 1]),
        states[end + 1] == client_told(states[end], true),
    ensures
        states[later].closed,
    decreases later,
{
    if end + 1 < later {
        client_is_closed_once_a_task_has_ended(states, end, later - 1);
        assert(client_step(states[later - 1], states[later - 1 + 1]));
        closed_client_stays_closed(states[later - 1], states[later]);
    }
}

/// Once a client is closed, whoever closed it, it sends nothing more.
pub proof fn closed_client_sends_nothing(
    before: ClientView,
    after: ClientView,
    message: MessageView,
    result: WebSocketResult<()>,
)
    requires
        before.closed,
        client_sent(before, after, message, result),
    ensures
        result is Err,
        after == before,
{
}

/// What sending from a client comes to, whatever the message: when it succeeds,
/// just that message is added last to what was queued before; when it fails,
/// nothing is. It fails as closed just when the client is closed, and otherwise
/// only when the queue refuses. Nothing else of the client changes.
pub proof fn sending_adds_just_the_message(
    before: ClientView,
    after: ClientView,
    message: MessageView,
    result: WebSocketResult<()>,
)
    requires
        client_sent(before, after, message, result),
    ensures
        result is Ok ==> {
            &&& !before.closed
            &&& !before.refused
            &&& after.sent.len() == before.sent.len() + 1
            &&& after.sent.last() == message
            &&& after.sent.drop_last() == before.sent
            &&& !after.refused
        },
        result is Err ==> after.sent == before.sent,
        before.closed <==> (result matches Err(WebSocketError::ConnectionClosed)),
        !before.closed && result is Err ==> {
            &&& after.refused
            &&& result matches Err(WebSocketError::Send(text))
            &&& text@ == "channel closed"@
        },
        before.closed ==> after == before,
        after.received == before.received,
        after.tries == before.tries,
        after.closed == before.closed,
        after.outgoing == before.outgoing,
        after.incoming == before.incoming,
{
    if result is Ok {
        assert(after.sent.drop_last() =~= before.sent);
    }
}

/// What closing a client comes to: it is closed. One that was not closed has put
/// one close message, without a payload, last on its queue, unless that refuses.
pub proof fn closing_adds_one_close_message(before: ClientView, after: ClientView)
    requires
        client_closed(before, after),
    ensures
        after.closed,
        before.closed ==> after == before,
        !before.closed && !after.refused ==> {
            &&& after.sent.len() == before.sent.len() + 1
            &&& after.sent.last().message_type == MessageType::Close
            &&& after.sent.last().payload.len() == 0
            &&& after.sent.drop_last() == before.sent
        },
        after.refused ==> after.sent == before.sent,
        before.refused ==> after.refused,
        after.received == before.received,
        after.tries == before.tries,
        after.outgoing == before.outgoing,
        after.incoming == before.incoming,
{
    if !before.closed && !after.refused {
        assert(after.sent.drop_last() =~= before.sent);
    }
}

/// A step of the reader or the writer closes the client just when that has ended,
/// and changes nothing else of it.
pub proof fn tasks_only_close_the_client(before: ClientView, ended: bool)
    ensures
        client_told(before, ended).closed == (before.closed || ended),
        client_told(before, ended).sent == before.sent,
        client_told(before, ended).refused == before.refused,
        client_told(before, ended).received == before.received,
        client_told(before, ended).tries == before.tries,
        client_told(before, ended).outgoing == before.outgoing,
        client_told(before, ended).incoming == before.incoming,
{
}

/// What a client has received is what its tries gave, in order: each try that
/// gave a message adds just that message, and each that gave nothing adds nothing.
pub proof fn receiving_keeps_every_message_in_order(
    before: ClientView,
    tries: Seq<Option<MessageView>>,
    got: Option<MessageView>,
    incoming: int,
)
    ensures
        received_from(before, tries, incoming).tries == tries,
        received_from(before, tries, incoming).incoming == incoming,
        received_from(before, tries, incoming).sent == before.sent,
        received_from(before, tries, incoming).closed == before.closed,
        received_from(before, tries, incoming).refused == before.refused,
        received_from(before, tries, incoming).outgoing == before.outgoing,
        received_from(before, Seq::empty(), incoming).received.len() == 0,
        got matches Some(message) ==> {
            let received = received_from(before, tries.push(got), incoming).received;
            &&& received.len() == received_from(before, tries, incoming).received.len() + 1
            &&& received.last() == message
            &&& received.drop_last() == received_from(before, tries, incoming).received
        },
        got is None ==> received_from(before, tries.push(got), incoming).received
            == received_from(before, tries, incoming).received,
{
    assert(tries.push(got).drop_last() =~= tries);
    if let Some(message) = got {
        assert(messages_among(tries).push(message).drop_last() =~= messages_among(tries));
    }
}

/// What a client has received is what its tries gave.
pub proof fn received_is_what_the_tries_gave(client: WebSocketClient)
    ensures
        client@.received == messages_among(client@.tries),
{
}

/// What a reader passes on of what it read: a frame other than a close frame as
/// one message of the same kind with the same payload, and reading goes on just
/// when it is taken; a close frame as a close message; and nothing of an error or
/// the end of the stream.
pub proof fn reader_passes_on_what_it_reads(
    before: InboxView,
    outcome: ReadView,
    after: InboxView,
    goes_on: bool,
)
    requires
        reader_step(before, outcome, after, goes_on),
    ensures
        goes_on ==> outcome is Frame && !(outcome->Frame_0 is Close),
        outcome is Frame && !(outcome->Frame_0 is Close) ==> (goes_on <==> !after.refused),
        outcome is Frame && !after.refused ==> {
            let message = after.delivered.last();
            &&& after.delivered.len() == before.delivered.len() + 1
            &&& after.delivered.drop_last() == before.delivered
            &&& match outcome->Frame_0 {
                WireView::Text(text) => message.message_type == MessageType::Text
                    && message.payload == vstd::utf8::encode_utf8(text),
                WireView::Binary(data) => message.message_type == MessageType::Binary
                    && message.payload == data,
                WireView::Ping(data) => message.message_type == MessageType::Ping
                    && message.payload == data,
                WireView::Pong(data) => message.message_type == MessageType::Pong
                    && message.payload == data,
                WireView::Close => message.message_type == MessageType::Close
                    && message.payload.len() == 0,
            }
        },
        after.refused ==> after.delivered == before.delivered,
        before.refused ==> after.refused,
        !(outcome is Frame) ==> !goes_on && after == before,
        after.queue == before.queue,
{
    if outcome is Frame && !after.refused {
        assert(after.delivered.drop_last() =~= before.delivered);
    }
}

/// What it takes to connect: the URL in its normal form, the time given, and
/// settings of its own just when there is a limit, which then holds for messages
/// and frames. A URL that cannot be parsed is an error, in the parser's words.
pub proof fn requests_ask_for_what_was_given(
    parsed: Result<Seq<char>, Seq<char>>,
    timeout: Duration,
    max_message_size: Option<usize>,
    result: WebSocketResult<ConnectRequest>,
)
    requires
        requests(parsed, timeout, max_message_size, result),
    ensures
        parsed is Ok <==> result is Ok,
        result matches Ok(request) ==> {
            &&& request.url@ == parsed->Ok_0
            &&& request.timeout == timeout
            &&& request.config is Some <==> max_message_size is Some
            &&& request.config matches Some(config) ==> {
                &&& config.max_message_size == max_message_size
                &&& config.max_frame_size == max_message_size
            }
        },
        result matches Err(error) ==> (error matches WebSocketError::InvalidUrl(detail) && detail@
            == parsed->Err_0),
{
}

/// The text of a result is that of what it holds.
pub proof fn result_texts_are_what_is_held(result: Result<String, String>)
    ensures
        result is Ok <==> result_texts(result) is Ok,
        result matches Ok(text) ==> result_texts(result)->Ok_0 == text@,
        result matches Err(text) ==> result_texts(result)->Err_0 == text@,
{
}

} // verus!
