//! What can go wrong.

use vstd::prelude::*;
use vstd::string::StringExecFns;

verus! {

/// An error of a WebSocket operation. Errors that come from below the library
/// are carried as the text that describes them.
#[derive(Debug)]
#[non_exhaustive]
pub enum WebSocketError {
    /// The connection failed.
    Connection(String),
    /// The peer broke the WebSocket protocol.
    Protocol(String),
    /// An I/O operation failed.
    Io(String),
    /// A value could not be serialized.
    Serialization(String),
    /// No connection has this id.
    ConnectionNotFound(String),
    /// No room has this id.
    RoomNotFound(String),
    /// The connection is no longer open.
    ConnectionClosed,
    /// The message could not be queued.
    Send(String),
    /// The operation took too long.
    Timeout,
    /// TLS failed.
    Tls(String),
    /// The URL is missing or malformed.
    InvalidUrl(String),
    /// The server could not be set up.
    Server(String),
}

/// The result of a WebSocket operation.
pub type WebSocketResult<T> = Result<T, WebSocketError>;

impl WebSocketError {
    /// The words that describe the error, and its detail.
    pub open spec fn text(self) -> Seq<char> {
        match self {
            WebSocketError::Connection(detail) => "Connection error: "@ + detail@,
            WebSocketError::Protocol(detail) => "Protocol error: "@ + detail@,
            WebSocketError::Io(detail) => "IO error: "@ + detail@,
            WebSocketError::Serialization(detail) => "Serialization error: "@ + detail@,
            WebSocketError::ConnectionNotFound(id) => "Connection not found: "@ + id@,
            WebSocketError::RoomNotFound(id) => "Room not found: "@ + id@,
            WebSocketError::ConnectionClosed => "Connection closed"@,
            WebSocketError::Send(detail) => "Failed to send message: "@ + detail@,
            WebSocketError::Timeout => "Operation timed out"@,
            WebSocketError::Tls(detail) => "TLS error: "@ + detail@,
            WebSocketError::InvalidUrl(detail) => "Invalid URL: "@ + detail@,
            WebSocketError::Server(detail) => "Server error: "@ + detail@,
        }
    }

    /// Describes the error.
    pub fn to_text(&self) -> (text: String)
        ensures
            text@ == self.text(),
            match *self {
                WebSocketError::Connection(detail) => text@ == "Connection error: "@ + detail@,
                WebSocketError::Protocol(detail) => text@ == "Protocol error: "@ + detail@,
                WebSocketError::Io(detail) => text@ == "IO error: "@ + detail@,
                WebSocketError::Serialization(detail) => text@ == "Serialization error: "@
                    + detail@,
                WebSocketError::ConnectionNotFound(id) => text@ == "Connection not found: "@ + id@,
                WebSocketError::RoomNotFound(id) => text@ == "Room not found: "@ + id@,
                WebSocketError::ConnectionClosed => text@ == "Connection closed"@,
                WebSocketError::Send(detail) => text@ == "Failed to send message: "@ + detail@,
                WebSocketError::Timeout => text@ == "Operation timed out"@,
                WebSocketError::Tls(detail) => text@ == "TLS error: "@ + detail@,
                WebSocketError::InvalidUrl(detail) => text@ == "Invalid URL: "@ + detail@,
                WebSocketError::Server(detail) => text@ == "Server error: "@ + detail@,
            },
    {
        match self {
            WebSocketError::Connection(detail) => prefixed("Connection error: ", detail),
            WebSocketError::Protocol(detail) => prefixed("Protocol error: ", detail),
            WebSocketError::Io(detail) => prefixed("IO error: ", detail),
            WebSocketError::Serialization(detail) => prefixed("Serialization error: ", detail),
            WebSocketError::ConnectionNotFound(id) => prefixed("Connection not found: ", id),
            WebSocketError::RoomNotFound(id) => prefixed("Room not found: ", id),
            WebSocketError::ConnectionClosed => "Connection closed".to_owned(),
            WebSocketError::Send(detail) => prefixed("Failed to send message: ", detail),
            WebSocketError::Timeout => "Operation timed out".to_owned(),
            WebSocketError::Tls(detail) => prefixed("TLS error: ", detail),
            WebSocketError::InvalidUrl(detail) => prefixed("Invalid URL: ", detail),
            WebSocketError::Server(detail) => prefixed("Server error: ", detail),
        }
    }
}

/// The two texts, one after the other.
pub(crate) fn prefixed(prefix: &str, text: &str) -> (joined: String)
    ensures
        joined@ == prefix@ + text@,
{
    let mut joined = prefix.to_owned();
    joined.append(text);
    joined
}

/// The detail of an error stands whole at the end of its text.
pub proof fn error_text_ends_with_its_detail(error: WebSocketError)
    ensures
        match error {
            WebSocketError::Connection(detail)
            | WebSocketError::Protocol(detail)
            | WebSocketError::Io(detail)
            | WebSocketError::Serialization(detail)
            | WebSocketError::ConnectionNotFound(detail)
            | WebSocketError::RoomNotFound(detail)
            | WebSocketError::Send(detail)
            | WebSocketError::Tls(detail)
            | WebSocketError::InvalidUrl(detail)
            | WebSocketError::Server(detail) => {
                &&& error.text().len() >= detail@.len()
                &&& error.text().skip(error.text().len() - detail@.len()) == detail@
            },
            _ => true,
        },
{
    match error {
        WebSocketError::Connection(detail)
        | WebSocketError::Protocol(detail)
        | WebSocketError::Io(detail)
        | WebSocketError::Serialization(detail)
        | WebSocketError::ConnectionNotFound(detail)
        | WebSocketError::RoomNotFound(detail)
        | WebSocketError::Send(detail)
        | WebSocketError::Tls(detail)
        | WebSocketError::InvalidUrl(detail)
        | WebSocketError::Server(detail) => {
            assert(error.text().skip(error.text().len() - detail@.len()) =~= detail@);
        },
        _ => {},
    }
}

} // verus!
