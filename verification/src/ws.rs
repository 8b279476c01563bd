//! Websocket close codes, and what a received frame means to a text
//! stream.
use vstd::prelude::*;

verus! {

#[verifier::external_type_specification]
#[verifier::external_body]
pub struct ExAxumError(axum::Error);

/// The payload of the pings that keep a websocket alive.
pub fn websocket_ping() -> (r: &'static str)
    ensures
        r@ == "PING!!"@,
{
    "PING!!"
}

/// The close codes the API uses.
#[derive(Clone, Copy, Debug, PartialEq, Eq)]
pub enum WebSocketCode {
    NormalClosure,
    BadPayload,
    InternalError,
}

impl WebSocketCode {
    /// The number sent in the close frame: 1000, 1007 or 1011.
    pub fn code(&self) -> (r: u16)
        ensures
            r == (match self {
                WebSocketCode::NormalClosure => 1000u16,
                WebSocketCode::BadPayload => 1007u16,
                WebSocketCode::InternalError => 1011u16,
            }),
    {
        match self {
            WebSocketCode::NormalClosure => 1000,
            WebSocketCode::BadPayload => 1007,
            WebSocketCode::InternalError => 1011,
        }
    }
}

/// Why a websocket gave no text.
pub enum WsError {
    IOError(axum::Error),
    AlreadyClosed,
    NotAString(Vec<u8>),
}

/// A frame received from a websocket.
pub enum Frame {
    Text(String),
    Binary(Vec<u8>),
    Ping(Vec<u8>),
    Pong(Vec<u8>),
    Close,
}

/// What receiving a frame means to a reader of text.
pub enum FrameStep {
    /// A message arrived.
    Deliver(String),
    /// The stream gives no more text.
    Fail(WsError),
    /// Nothing for the reader: wait for the next frame.
    Skip,
}

/// What a received frame (`None`: the socket is closed) means: text is
/// delivered, binary data is refused, a pong is skipped, and a close ends
/// the stream. Pings never reach the reader.
pub fn classify_frame(frame: Option<Frame>) -> (r: FrameStep)
    requires
        !(frame matches Some(Frame::Ping(_))),
    ensures
        match frame {
            None => r matches FrameStep::Fail(WsError::AlreadyClosed),
            Some(Frame::Text(s)) => r matches FrameStep::Deliver(t) && t@ == s@,
            Some(Frame::Binary(b)) => r matches FrameStep::Fail(WsError::NotAString(c)) && c@ == b@,
            Some(Frame::Ping(_)) => false,
            Some(Frame::Pong(_)) => r is Skip,
            Some(Frame::Close) => r matches FrameStep::Fail(WsError::AlreadyClosed),
        },
{
    match frame {
        None => FrameStep::Fail(WsError::AlreadyClosed),
        Some(Frame::Text(s)) => FrameStep::Deliver(s),
        Some(Frame::Binary(b)) => FrameStep::Fail(WsError::NotAString(b)),
        Some(Frame::Ping(_)) => FrameStep::Skip,
        Some(Frame::Pong(_)) => FrameStep::Skip,
        Some(Frame::Close) => FrameStep::Fail(WsError::AlreadyClosed),
    }
}

} // verus!
