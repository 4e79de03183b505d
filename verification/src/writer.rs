//! Writing queued messages to a peer.

use crate::client::{client_told, WebSocketClient};
use crate::error::WebSocketError;
use crate::message::{Message, MessageType, MessageView, WireMessage, WireView};
use vstd::prelude::*;
use vstd::utf8::{encode_utf8, valid_utf8};

verus! {

/// What a writer is told.
pub enum WriterEvent {
    /// The next message on the queue, or nothing once the queue has ended.
    Queue(Option<Message>),
    /// The frame has been written, or why it could not be.
    Written(Result<(), String>),
    /// The sink has been closed.
    SinkClosed,
}

/// What a writer asks for.
pub enum WriterAction {
    /// Wait for the next message on the queue.
    Receive,
    /// Write this frame.
    Write(WireMessage),
    /// Close the sink: there is no more to write.
    CloseSink,
    /// Nothing: the writer has ended.
    Finished,
    /// Give up, and leave the sink as it is.
    Fail(WebSocketError),
}

/// What a writer is told, as a value: of a write that failed, that it did.
pub enum WriterEventView {
    Queue(Option<MessageView>),
    Written(bool),
    SinkClosed,
}

impl View for WriterEvent {
    type V = WriterEventView;

    open spec fn view(&self) -> WriterEventView {
        match *self {
            WriterEvent::Queue(Some(message)) => WriterEventView::Queue(Some(message@)),
            WriterEvent::Queue(None) => WriterEventView::Queue(None),
            WriterEvent::Written(result) => WriterEventView::Written(result is Ok),
            WriterEvent::SinkClosed => WriterEventView::SinkClosed,
        }
    }
}

/// What a writer does next, as a value.
pub enum WriterMove {
    /// It waits for the next message.
    Receive,
    /// It writes a frame.
    Write(WireView),
    /// It closes the sink.
    CloseSink,
    /// It has ended.
    Finished,
    /// It cannot go on.
    GiveUp,
}

/// Whether a message is the last that a writer sends.
pub open spec fn is_last(message: MessageView) -> bool {
    message.message_type == MessageType::Close
}

/// The step that a writer takes: whether the frame it has handed out is a
/// close frame, and what it does next. A message without a wire form is
/// dropped, and the writer goes on. A close frame is the last to be written.
pub open spec fn writer_step(closing: bool, event: WriterEventView) -> (bool, WriterMove) {
    match event {
        WriterEventView::Queue(Some(message)) => match message.wire() {
            Some(frame) => (is_last(message), WriterMove::Write(frame)),
            None => (closing, WriterMove::Receive),
        },
        WriterEventView::Queue(None) => (closing, WriterMove::CloseSink),
        WriterEventView::Written(true) => if closing {
            (closing, WriterMove::CloseSink)
        } else {
            (closing, WriterMove::Receive)
        },
        WriterEventView::Written(false) => (closing, WriterMove::GiveUp),
        WriterEventView::SinkClosed => (closing, WriterMove::Finished),
    }
}

/// The frames that a writer puts on the wire for a queue of messages, as long
/// as no write fails: each message is handed to it, and each frame that it
/// hands out is written, until it is done.
pub open spec fn frames_written(closing: bool, queue: Seq<MessageView>) -> Seq<WireView>
    decreases queue.len(),
{
    if queue.len() == 0 {
        Seq::empty()
    } else {
        let (handed, first) = writer_step(closing, WriterEventView::Queue(Some(queue.first())));
        match first {
            WriterMove::Write(frame) => {
                let (left, second) = writer_step(handed, WriterEventView::Written(true));
                if second is Receive {
                    seq![frame] + frames_written(left, queue.drop_first())
                } else {
                    seq![frame]
                }
            },
            WriterMove::Receive => frames_written(handed, queue.drop_first()),
            _ => Seq::empty(),
        }
    }
}

/// How a writer fares with a queue of messages that then ends, when so many
/// writes succeed and the next fails: the frames on the wire, and what the
/// writer does at the end.
pub open spec fn writer_run(closing: bool, queue: Seq<MessageView>, good: nat) -> (
    Seq<WireView>,
    WriterMove,
)
    decreases queue.len(),
{
    if queue.len() == 0 {
        (Seq::empty(), writer_step(closing, WriterEventView::Queue(None)).1)
    } else {
        let (handed, first) = writer_step(closing, WriterEventView::Queue(Some(queue.first())));
        match first {
            WriterMove::Write(frame) => if good == 0 {
                (Seq::empty(), writer_step(handed, WriterEventView::Written(false)).1)
            } else {
                let (left, second) = writer_step(handed, WriterEventView::Written(true));
                if second is Receive {
                    let rest = writer_run(left, queue.drop_first(), (good - 1) as nat);
                    (seq![frame] + rest.0, rest.1)
                } else {
                    (seq![frame], second)
                }
            },
            WriterMove::Receive => writer_run(handed, queue.drop_first(), good),
            _ => (Seq::empty(), first),
        }
    }
}

/// Writes the messages queued for a connection of a server.
pub struct ConnectionWriter {
    closing: bool,
}

impl ConnectionWriter {
    /// Whether the frame that has been handed out is a close frame.
    pub closed spec fn closing(self) -> bool {
        self.closing
    }

    /// A writer that has written nothing.
    pub fn new() -> (writer: ConnectionWriter)
        ensures
            !writer.closing(),
    {
        ConnectionWriter { closing: false }
    }

    /// Takes the next step. A write that fails is an error.
    pub fn run(&mut self, event: WriterEvent) -> (action: WriterAction)
        ensures
            final(self).closing() == writer_step(old(self).closing(), event@).0,
            match writer_step(old(self).closing(), event@).1 {
                WriterMove::Receive => action is Receive,
                WriterMove::Write(frame) => action matches WriterAction::Write(written)
                    && written@ == frame,
                WriterMove::CloseSink => action is CloseSink,
                WriterMove::Finished => action is Finished,
                WriterMove::GiveUp => event matches WriterEvent::Written(Err(text)) && action
                    == WriterAction::Fail(WebSocketError::Protocol(text)),
            },
    {
        match event {
            WriterEvent::Queue(Some(message)) => {
                let last = message.is_close();
                match message.into_wire() {
                    Ok(frame) => {
                        self.closing = last;
                        WriterAction::Write(frame)
                    },
                    Err(_) => WriterAction::Receive,
                }
            },
            WriterEvent::Queue(None) => WriterAction::CloseSink,
            WriterEvent::Written(Ok(())) => {
                if self.closing {
                    WriterAction::CloseSink
                } else {
                    WriterAction::Receive
                }
            },
            WriterEvent::Written(Err(text)) => WriterAction::Fail(WebSocketError::Protocol(text)),
            WriterEvent::SinkClosed => WriterAction::Finished,
        }
    }
}

/// Writes the messages that a client queues.
pub struct ClientWriter {
    writer: ConnectionWriter,
}

impl ClientWriter {
    /// Whether the frame that has been handed out is a close frame.
    pub closed spec fn closing(self) -> bool {
        self.writer.closing()
    }

    /// A writer that has written nothing.
    pub fn new() -> (writer: ClientWriter)
        ensures
            !writer.closing(),
    {
        ClientWriter { writer: ConnectionWriter::new() }
    }

    /// Takes the next step. Writing ends with a close frame, with the queue, and
    /// with a write that fails. Then the sink is closed, and after it the
    /// client.
    pub fn writer_task(&mut self, client: &mut WebSocketClient, event: WriterEvent) -> (action:
        WriterAction)
        ensures
            final(self).closing() == writer_step(old(self).closing(), event@).0,
            match writer_step(old(self).closing(), event@).1 {
                WriterMove::Receive => action is Receive,
                WriterMove::Write(frame) => action matches WriterAction::Write(written)
                    && written@ == frame,
                WriterMove::CloseSink => action is CloseSink,
                WriterMove::Finished => action is Finished,
                WriterMove::GiveUp => action is CloseSink,
            },
            final(client)@ == client_told(old(client)@, action is Finished),
    {
        let action = match self.writer.run(event) {
            WriterAction::Fail(_) => WriterAction::CloseSink,
            action => action,
        };
        client.note(matches!(action, WriterAction::Finished));
        action
    }
}

/// A text message that is not UTF-8 is dropped, and everything else is written
/// as if it had not been there.
pub proof fn unsendable_messages_are_skipped(
    closing: bool,
    earlier: Seq<MessageView>,
    unsendable: MessageView,
    later: Seq<MessageView>,
)
    requires
        unsendable.wire() is None,
    ensures
        frames_written(closing, earlier.push(unsendable) + later) == frames_written(
            closing,
            earlier + later,
        ),
    decreases earlier.len(),
{
    let queue = earlier.push(unsendable) + later;
    if earlier.len() == 0 {
        assert(queue.drop_first() =~= later);
        assert(earlier + later =~= later);
    } else {
        let rest = earlier.drop_first();
        unsendable_messages_are_skipped(false, rest, unsendable, later);
        unsendable_messages_are_skipped(closing, rest, unsendable, later);
        assert(queue.drop_first() =~= rest.push(unsendable) + later);
        assert((earlier + later).drop_first() =~= rest + later);
        assert((earlier + later).first() == earlier.first());
    }
}

/// Nothing is written after a close frame.
pub proof fn nothing_follows_a_close_frame(
    closing: bool,
    earlier: Seq<MessageView>,
    close: MessageView,
    later: Seq<MessageView>,
)
    requires
        close.message_type == MessageType::Close,
    ensures
        frames_written(closing, earlier.push(close) + later) == frames_written(
            closing,
            earlier.push(close),
        ),
    decreases earlier.len(),
{
    let short = earlier.push(close);
    let queue = short + later;
    if earlier.len() > 0 {
        let rest = earlier.drop_first();
        nothing_follows_a_close_frame(false, rest, close, later);
        nothing_follows_a_close_frame(closing, rest, close, later);
        assert(queue.drop_first() =~= rest.push(close) + later);
        assert(short.drop_first() =~= rest.push(close));
    }
}

/// A close message that is queued makes a close frame the last to be written.
pub proof fn close_message_ends_in_a_close_frame(
    closing: bool,
    earlier: Seq<MessageView>,
    close: MessageView,
    later: Seq<MessageView>,
)
    requires
        close.message_type == MessageType::Close,
    ensures
        frames_written(closing, earlier.push(close) + later).len() > 0,
        frames_written(closing, earlier.push(close) + later).last() == WireView::Close,
    decreases earlier.len(),
{
    let queue = earlier.push(close) + later;
    if earlier.len() > 0 {
        let rest = earlier.drop_first();
        close_message_ends_in_a_close_frame(false, rest, close, later);
        close_message_ends_in_a_close_frame(closing, rest, close, later);
        assert(queue.drop_first() =~= rest.push(close) + later);
    }
}

/// However writing ends, the frames before the first failed write have gone out,
/// and no other. A writer gives up just when a write has failed; otherwise it
/// closes the sink.
pub proof fn writing_stops_at_the_first_failed_write(
    closing: bool,
    queue: Seq<MessageView>,
    good: nat,
)
    ensures
        ({
            let all = frames_written(closing, queue);
            let (frames, end) = writer_run(closing, queue, good);
            if good < all.len() {
                frames == all.take(good as int) && end is GiveUp
            } else {
                frames == all && end is CloseSink
            }
        }),
    decreases queue.len(),
{
    if queue.len() > 0 {
        let rest = queue.drop_first();
        writing_stops_at_the_first_failed_write(closing, rest, good);
        if good > 0 {
            let fewer = (good - 1) as nat;
            writing_stops_at_the_first_failed_write(false, rest, fewer);
            let all = frames_written(closing, queue);
            if good < all.len() && queue.first().wire() is Some && !is_last(queue.first()) {
                assert(all.take(good as int) =~= seq![all[0]] + frames_written(false, rest).take(
                    fewer as int,
                ));
            }
        } else {
            assert(frames_written(closing, queue).take(0) =~= Seq::<WireView>::empty());
        }
    }
}

/// Messages that all have a wire form, none of them a close message, are all
/// written, in order.
pub proof fn sendable_messages_are_all_written(closing: bool, queue: Seq<MessageView>)
    requires
        forall|i: int|
            0 <= i < queue.len() ==> (#[trigger] queue[i]).wire() is Some && !is_last(queue[i]),
    ensures
        frames_written(closing, queue) == queue.map_values(
            |message: MessageView| message.wire()->0,
        ),
    decreases queue.len(),
{
    let frames = queue.map_values(|message: MessageView| message.wire()->0);
    if queue.len() > 0 {
        let rest = queue.drop_first();
        assert forall|i: int| 0 <= i < rest.len() implies (#[trigger] rest[i]).wire() is Some
            && !is_last(rest[i]) by {
            assert(rest[i] == queue[i + 1]);
        }
        sendable_messages_are_all_written(false, rest);
        assert(queue.first() == queue[0]);
        assert(frames =~= seq![frames[0]] + rest.map_values(
            |message: MessageView| message.wire()->0,
        ));
    } else {
        assert(frames =~= Seq::empty());
    }
}

/// Each message that a writer is handed goes out as a frame of its own kind, with
/// its whole payload, and is known to be the last just when it is a close message.
/// Only text that is not UTF-8 is passed over: then the next message is asked for,
/// and nothing is forgotten.
pub proof fn messages_go_out_as_frames_of_their_kind(closing: bool, message: MessageView)
    ensures
        ({
            let (handed, next) = writer_step(closing, WriterEventView::Queue(Some(message)));
            let unsendable = message.message_type == MessageType::Text && !valid_utf8(
                message.payload,
            );
            &&& unsendable <==> next is Receive
            &&& unsendable ==> handed == closing
            &&& !unsendable ==> {
                &&& next is Write
                &&& handed == (message.message_type == MessageType::Close)
                &&& match message.message_type {
                    MessageType::Text => next->Write_0 matches WireView::Text(text) && encode_utf8(
                        text,
                    ) == message.payload,
                    MessageType::Binary => next->Write_0 == WireView::Binary(message.payload),
                    MessageType::Ping => next->Write_0 == WireView::Ping(message.payload),
                    MessageType::Pong => next->Write_0 == WireView::Pong(message.payload),
                    MessageType::Close => next->Write_0 == WireView::Close,
                }
            }
        }),
{
    if valid_utf8(message.payload) {
        vstd::utf8::decode_utf8_encode_utf8(message.payload);
    }
}

/// What a writer does at the other events: the end of the queue closes the sink;
/// a frame that went out is followed by the next message, unless it was the
/// last; a failed write is given up on; and a closed sink is the end. None of them
/// changes whether the last frame is out.
pub proof fn writers_go_on_until_the_last_frame(closing: bool)
    ensures
        writer_step(closing, WriterEventView::Queue(None)) == (closing, WriterMove::CloseSink),
        closing ==> writer_step(closing, WriterEventView::Written(true)).1 is CloseSink,
        !closing ==> writer_step(closing, WriterEventView::Written(true)).1 is Receive,
        writer_step(closing, WriterEventView::Written(true)).0 == closing,
        writer_step(closing, WriterEventView::Written(false)) == (closing, WriterMove::GiveUp),
        writer_step(closing, WriterEventView::SinkClosed) == (closing, WriterMove::Finished),
{
}

/// What a writer is told is seen as what it holds.
pub proof fn writer_events_are_what_is_held(event: WriterEvent)
    ensures
        match event {
            WriterEvent::Queue(Some(message)) => event@ == WriterEventView::Queue(Some(message@)),
            WriterEvent::Queue(None) => event@ == WriterEventView::Queue(None),
            WriterEvent::Written(result) => event@ == WriterEventView::Written(result is Ok),
            WriterEvent::SinkClosed => event@ is SinkClosed,
        },
{
}

} // verus!
