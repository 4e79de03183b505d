//! Messages, and the frames that carry them on the wire.

use crate::error::{WebSocketError, WebSocketResult};
use crate::payload::{bytes_as_slice, bytes_clone, bytes_content, bytes_from_vec};
use bytes::Bytes;
use vstd::prelude::*;
use vstd::slice::slice_to_vec;
use vstd::utf8::{decode_utf8, encode_utf8, valid_utf8};

verus! {

/// What a message is for.
#[derive(Debug, Clone, Copy, PartialEq, Eq, Structural)]
pub enum MessageType {
    /// UTF-8 text.
    Text,
    /// Arbitrary bytes.
    Binary,
    /// A liveness probe.
    Ping,
    /// The answer to a ping.
    Pong,
    /// The end of the connection.
    Close,
}

/// A message: its type and its bytes.
#[derive(Debug)]
pub struct Message {
    /// What the message is for.
    pub message_type: MessageType,
    /// The bytes of the message.
    pub payload: Bytes,
}

/// A message as a value: its type and the bytes it carries.
pub struct MessageView {
    pub message_type: MessageType,
    pub payload: Seq<u8>,
}

impl View for Message {
    type V = MessageView;

    open spec fn view(&self) -> MessageView {
        MessageView { message_type: self.message_type, payload: bytes_content(self.payload) }
    }
}

/// A frame as it goes on the wire: text frames hold text, and a close frame
/// holds nothing.
#[derive(Debug)]
pub enum WireMessage {
    /// A text frame.
    Text(String),
    /// A binary frame.
    Binary(Bytes),
    /// A ping frame.
    Ping(Bytes),
    /// A pong frame.
    Pong(Bytes),
    /// A close frame.
    Close,
}

/// A wire frame as a value.
pub enum WireView {
    Text(Seq<char>),
    Binary(Seq<u8>),
    Ping(Seq<u8>),
    Pong(Seq<u8>),
    Close,
}

impl View for WireMessage {
    type V = WireView;

    open spec fn view(&self) -> WireView {
        match *self {
            WireMessage::Text(text) => WireView::Text(text@),
            WireMessage::Binary(data) => WireView::Binary(bytes_content(data)),
            WireMessage::Ping(data) => WireView::Ping(bytes_content(data)),
            WireMessage::Pong(data) => WireView::Pong(bytes_content(data)),
            WireMessage::Close => WireView::Close,
        }
    }
}

/// What came of reading from the peer.
pub enum ReadOutcome {
    /// A frame.
    Frame(WireMessage),
    /// An error, as the text that describes it.
    Failed(String),
    /// The end of the stream.
    Ended,
}

/// What came of reading, as a value: of an error, that there was one.
pub enum ReadView {
    Frame(WireView),
    Failed,
    Ended,
}

impl View for ReadOutcome {
    type V = ReadView;

    open spec fn view(&self) -> ReadView {
        match *self {
            ReadOutcome::Frame(frame) => ReadView::Frame(frame@),
            ReadOutcome::Failed(_) => ReadView::Failed,
            ReadOutcome::Ended => ReadView::Ended,
        }
    }
}

/// A text message whose payload is not UTF-8: it has no wire form.
#[derive(Debug, Clone, Copy, PartialEq, Eq, Structural)]
pub struct InvalidTextPayload;

impl MessageView {
    /// The message of the given type that carries no bytes.
    pub open spec fn bare(message_type: MessageType) -> MessageView {
        MessageView { message_type, payload: Seq::empty() }
    }

    /// The message that carries this text.
    pub open spec fn text(text: Seq<char>) -> MessageView {
        MessageView { message_type: MessageType::Text, payload: encode_utf8(text) }
    }

    /// The message that carries these bytes as they are.
    pub open spec fn binary(payload: Seq<u8>) -> MessageView {
        MessageView { message_type: MessageType::Binary, payload }
    }

    /// The frame that carries this message, if there is one: text has to be
    /// UTF-8, and a close frame carries nothing.
    pub open spec fn wire(self) -> Option<WireView> {
        match self.message_type {
            MessageType::Text => if valid_utf8(self.payload) {
                Some(WireView::Text(decode_utf8(self.payload)))
            } else {
                None
            },
            MessageType::Binary => Some(WireView::Binary(self.payload)),
            MessageType::Ping => Some(WireView::Ping(self.payload)),
            MessageType::Pong => Some(WireView::Pong(self.payload)),
            MessageType::Close => Some(WireView::Close),
        }
    }
}

impl WireView {
    /// The message that this frame carries.
    pub open spec fn message(self) -> MessageView {
        match self {
            WireView::Text(text) => MessageView::text(text),
            WireView::Binary(payload) => MessageView::binary(payload),
            WireView::Ping(payload) => MessageView { message_type: MessageType::Ping, payload },
            WireView::Pong(payload) => MessageView { message_type: MessageType::Pong, payload },
            WireView::Close => MessageView::bare(MessageType::Close),
        }
    }
}

/// `String::from_utf8`: the text that the bytes encode, when they are UTF-8.
#[verifier::external_body]
fn text_from_utf8(data: Vec<u8>) -> (text: Option<String>)
    ensures
        text is Some <==> valid_utf8(data@),
        text matches Some(text) ==> text@ == decode_utf8(data@),
{
    String::from_utf8(data).ok()
}

impl Message {
    /// A text message.
    pub fn text(text: &str) -> (message: Message)
        ensures
            message@ == MessageView::text(text@),
            message.message_type == MessageType::Text,
            bytes_content(message.payload) == encode_utf8(text@),
    {
        Message {
            message_type: MessageType::Text,
            payload: bytes_from_vec(slice_to_vec(text.as_bytes())),
        }
    }

    /// A binary message.
    pub fn binary(data: Bytes) -> (message: Message)
        ensures
            message@ == MessageView::binary(bytes_content(data)),
            message.message_type == MessageType::Binary,
            bytes_content(message.payload) == bytes_content(data),
    {
        Message { message_type: MessageType::Binary, payload: data }
    }

    /// A text message that carries a value serialized as JSON, unless the
    /// value could not be serialized.
    pub fn json(encoded: Result<String, String>) -> (message: WebSocketResult<Message>)
        ensures
            match encoded {
                Ok(json) => message matches Ok(message) && message@ == MessageView::text(json@),
                Err(text) => message == Err::<Message, _>(WebSocketError::Serialization(text)),
            },
            (message matches Ok(message) ==> {
                &&& encoded is Ok
                &&& message.message_type == MessageType::Text
                &&& bytes_content(message.payload) == encode_utf8(encoded->Ok_0@)
            }),
    {
        match encoded {
            Ok(json) => Ok(Message::text(json.as_str())),
            Err(text) => Err(WebSocketError::Serialization(text)),
        }
    }

    /// A ping.
    pub fn ping(payload: Vec<u8>) -> (message: Message)
        ensures
            message@ == (MessageView { message_type: MessageType::Ping, payload: payload@ }),
            message.message_type == MessageType::Ping,
            bytes_content(message.payload) == payload@,
    {
        Message { message_type: MessageType::Ping, payload: bytes_from_vec(payload) }
    }

    /// A pong.
    pub fn pong(payload: Vec<u8>) -> (message: Message)
        ensures
            message@ == (MessageView { message_type: MessageType::Pong, payload: payload@ }),
            message.message_type == MessageType::Pong,
            bytes_content(message.payload) == payload@,
    {
        Message { message_type: MessageType::Pong, payload: bytes_from_vec(payload) }
    }

    /// A close message, which carries nothing.
    pub fn close() -> (message: Message)
        ensures
            message@ == MessageView::bare(MessageType::Close),
            message.message_type == MessageType::Close,
            bytes_content(message.payload).len() == 0,
    {
        Message { message_type: MessageType::Close, payload: bytes_from_vec(Vec::new()) }
    }

    /// Whether this is a text message.
    pub fn is_text(&self) -> (yes: bool)
        ensures
            yes == (self@.message_type == MessageType::Text),
            yes <==> self.message_type == MessageType::Text,
    {
        self.message_type == MessageType::Text
    }

    /// Whether this is a binary message.
    pub fn is_binary(&self) -> (yes: bool)
        ensures
            yes == (self@.message_type == MessageType::Binary),
            yes <==> self.message_type == MessageType::Binary,
    {
        self.message_type == MessageType::Binary
    }

    /// Whether this is a ping.
    pub fn is_ping(&self) -> (yes: bool)
        ensures
            yes == (self@.message_type == MessageType::Ping),
            yes <==> self.message_type == MessageType::Ping,
    {
        self.message_type == MessageType::Ping
    }

    /// Whether this is a pong.
    pub fn is_pong(&self) -> (yes: bool)
        ensures
            yes == (self@.message_type == MessageType::Pong),
            yes <==> self.message_type == MessageType::Pong,
    {
        self.message_type == MessageType::Pong
    }

    /// Whether this is a close message.
    pub fn is_close(&self) -> (yes: bool)
        ensures
            yes == (self@.message_type == MessageType::Close),
            yes <==> self.message_type == MessageType::Close,
    {
        self.message_type == MessageType::Close
    }

    /// The bytes of the message.
    pub fn as_bytes(&self) -> (data: &[u8])
        ensures
            data@ == self@.payload,
            data@ == bytes_content(self.payload),
    {
        bytes_as_slice(&self.payload)
    }

    /// The frame that carries this message. A text message whose payload is
    /// not UTF-8 has none.
    pub fn into_wire(self) -> (frame: Result<WireMessage, InvalidTextPayload>)
        ensures
            match frame {
                Ok(frame) => self@.wire() == Some(frame@),
                Err(_) => self@.wire() is None,
            },
            frame is Err <==> self.message_type == MessageType::Text && !valid_utf8(
                bytes_content(self.payload),
            ),
            (frame matches Ok(frame) ==> match frame {
                WireMessage::Text(text) => {
                    &&& self.message_type == MessageType::Text
                    &&& encode_utf8(text@) == bytes_content(self.payload)
                },
                WireMessage::Binary(data) => {
                    &&& self.message_type == MessageType::Binary
                    &&& bytes_content(data) == bytes_content(self.payload)
                },
                WireMessage::Ping(data) => {
                    &&& self.message_type == MessageType::Ping
                    &&& bytes_content(data) == bytes_content(self.payload)
                },
                WireMessage::Pong(data) => {
                    &&& self.message_type == MessageType::Pong
                    &&& bytes_content(data) == bytes_content(self.payload)
                },
                WireMessage::Close => self.message_type == MessageType::Close,
            }),
    {
        match self.message_type {
            MessageType::Text => {
                proof {
                    if valid_utf8(self@.payload) {
                        vstd::utf8::decode_utf8_encode_utf8(self@.payload);
                    }
                }
                match text_from_utf8(slice_to_vec(bytes_as_slice(&self.payload))) {
                    Some(text) => Ok(WireMessage::Text(text)),
                    None => Err(InvalidTextPayload),
                }
            },
            MessageType::Binary => Ok(WireMessage::Binary(self.payload)),
            MessageType::Ping => Ok(WireMessage::Ping(self.payload)),
            MessageType::Pong => Ok(WireMessage::Pong(self.payload)),
            MessageType::Close => Ok(WireMessage::Close),
        }
    }

    /// The message that a frame carries.
    pub fn from_wire(frame: WireMessage) -> (message: Message)
        ensures
            message@ == frame@.message(),
            match frame {
                WireMessage::Text(text) => {
                    &&& message.message_type == MessageType::Text
                    &&& bytes_content(message.payload) == encode_utf8(text@)
                },
                WireMessage::Binary(data) => {
                    &&& message.message_type == MessageType::Binary
                    &&& bytes_content(message.payload) == bytes_content(data)
                },
                WireMessage::Ping(data) => {
                    &&& message.message_type == MessageType::Ping
                    &&& bytes_content(message.payload) == bytes_content(data)
                },
                WireMessage::Pong(data) => {
                    &&& message.message_type == MessageType::Pong
                    &&& bytes_content(message.payload) == bytes_content(data)
                },
                WireMessage::Close => {
                    &&& message.message_type == MessageType::Close
                    &&& bytes_content(message.payload).len() == 0
                },
            },
    {
        match frame {
            WireMessage::Text(text) => Message::text(text.as_str()),
            WireMessage::Binary(payload) => Message { message_type: MessageType::Binary, payload },
            WireMessage::Ping(payload) => Message { message_type: MessageType::Ping, payload },
            WireMessage::Pong(payload) => Message { message_type: MessageType::Pong, payload },
            WireMessage::Close => Message::close(),
        }
    }
}

impl Clone for Message {
    fn clone(&self) -> (copy: Self)
        ensures
            copy@ == self@,
            copy.message_type == self.message_type,
            bytes_content(copy.payload) == bytes_content(self.payload),
    {
        Message { message_type: self.message_type, payload: bytes_clone(&self.payload) }
    }
}

impl WireMessage {
    /// Whether this is a close frame.
    pub fn is_close(&self) -> (yes: bool)
        ensures
            yes == (self@ == WireView::Close),
            yes <==> self is Close,
    {
        matches!(self, WireMessage::Close)
    }
}

/// Every frame is the wire form of the message it carries.
pub proof fn frame_survives_decoding(frame: WireView)
    ensures
        frame.message().wire() == Some(frame),
{
    if let WireView::Text(text) = frame {
        vstd::utf8::encode_utf8_valid_utf8(text);
        vstd::utf8::encode_utf8_decode_utf8(text);
    }
}

/// A message comes back unchanged from its wire form. Only a close message
/// with a payload, which no constructor makes, would lose that payload.
pub proof fn message_survives_the_wire(message: MessageView)
    requires
        message.wire() is Some,
        message.message_type == MessageType::Close ==> message.payload.len() == 0,
    ensures
        message.wire()->0.message() == message,
{
    if message.message_type == MessageType::Text {
        vstd::utf8::decode_utf8_encode_utf8(message.payload);
    }
    assert(message.message_type == MessageType::Close ==> message.payload =~= Seq::empty());
}

/// A frame is of the kind of its message, and carries its payload: a ping goes
/// out as a ping and a pong as a pong, however long they are. Only text that is
/// not UTF-8 has no frame.
pub proof fn frame_has_the_kind_and_payload_of_its_message(message: MessageView)
    ensures
        (message.wire() is None) <==> (message.message_type == MessageType::Text && !valid_utf8(
            message.payload,
        )),
        (message.wire() is Some && message.wire()->0 is Text) <==> (message.message_type
            == MessageType::Text && valid_utf8(message.payload)),
        (message.wire() is Some && message.wire()->0 is Binary) <==> (message.message_type
            == MessageType::Binary),
        (message.wire() is Some && message.wire()->0 is Ping) <==> (message.message_type
            == MessageType::Ping),
        (message.wire() is Some && message.wire()->0 is Pong) <==> (message.message_type
            == MessageType::Pong),
        (message.wire() is Some && message.wire()->0 is Close) <==> (message.message_type
            == MessageType::Close),
        message.wire() matches Some(WireView::Text(text)) ==> encode_utf8(text) == message.payload,
        message.wire() matches Some(WireView::Binary(data)) ==> data == message.payload,
        message.wire() matches Some(WireView::Ping(data)) ==> data == message.payload,
        message.wire() matches Some(WireView::Pong(data)) ==> data == message.payload,
{
    if valid_utf8(message.payload) {
        vstd::utf8::decode_utf8_encode_utf8(message.payload);
    }
}

/// A message is of the kind of the frame that carried it, and has its payload.
pub proof fn message_has_the_kind_and_payload_of_its_frame(frame: WireView)
    ensures
        frame is Text <==> frame.message().message_type == MessageType::Text,
        frame is Binary <==> frame.message().message_type == MessageType::Binary,
        frame is Ping <==> frame.message().message_type == MessageType::Ping,
        frame is Pong <==> frame.message().message_type == MessageType::Pong,
        frame is Close <==> frame.message().message_type == MessageType::Close,
        frame matches WireView::Text(text) ==> frame.message().payload == encode_utf8(text),
        frame matches WireView::Binary(data) ==> frame.message().payload == data,
        frame matches WireView::Ping(data) ==> frame.message().payload == data,
        frame matches WireView::Pong(data) ==> frame.message().payload == data,
        frame is Close ==> frame.message().payload.len() == 0,
{
}

/// What the constructors of messages put in: the type and the bytes, and nothing
/// for a bare message.
pub proof fn messages_hold_what_they_are_made_of(
    text: Seq<char>,
    payload: Seq<u8>,
    message_type: MessageType,
)
    ensures
        MessageView::text(text).message_type == MessageType::Text,
        decode_utf8(MessageView::text(text).payload) == text,
        MessageView::binary(payload).message_type == MessageType::Binary,
        MessageView::binary(payload).payload == payload,
        MessageView::bare(message_type).message_type == message_type,
        MessageView::bare(message_type).payload.len() == 0,
{
    vstd::utf8::encode_utf8_decode_utf8(text);
}

/// Messages, frames and what came of reading are seen as what they hold.
pub proof fn values_are_what_is_held(message: Message, frame: WireMessage, outcome: ReadOutcome)
    ensures
        message@.message_type == message.message_type,
        message@.payload == bytes_content(message.payload),
        match frame {
            WireMessage::Text(text) => frame@ == WireView::Text(text@),
            WireMessage::Binary(data) => frame@ == WireView::Binary(bytes_content(data)),
            WireMessage::Ping(data) => frame@ == WireView::Ping(bytes_content(data)),
            WireMessage::Pong(data) => frame@ == WireView::Pong(bytes_content(data)),
            WireMessage::Close => frame@ == WireView::Close,
        },
        match outcome {
            ReadOutcome::Frame(frame) => outcome@ == ReadView::Frame(frame@),
            ReadOutcome::Failed(_) => outcome@ is Failed,
            ReadOutcome::Ended => outcome@ is Ended,
        },
{
}

} // verus!
