//! RFC 6455 WebSocket framing codec and connection state machine.
//!
//! The crate is organised as a sans-I/O core: every function here works on
//! plain byte buffers and values, so the whole protocol logic is verified.
//! An embedding is expected to own the byte stream, feed received bytes to
//! [`WebSocket::recv`] and write the buffers returned by the send family of
//! methods back to the peer.

use vstd::prelude::*;

pub mod frame;
pub mod handshake;
pub mod mask;
pub mod ws;

pub use frame::{encode, encode_header, Frame, Header, Opcode, ParseError, Rsv};
pub use handshake::{accept_key_from, response};
pub use mask::{apply_mask, Mask};
pub use ws::{on_close, CloseReason, RecvError, SendError, WebSocket, DEFAULT_MAX_PAYLOAD_LEN};

verus! {

/// Marker for the server side of a connection, as a const-generic argument.
pub const SERVER: bool = true;

/// Marker for the client side of a connection, as a const-generic argument.
pub const CLIENT: bool = false;

/// Two roles that can be played by a WebSocket connection: `Server` and `Client`.
///
/// The role fixes the masking policy: clients mask every outbound frame and
/// reject masked inbound frames; servers do the inverse.
#[derive(Debug, Clone, Copy, PartialEq, Eq, Structural)]
pub enum Role {
    /// A websocket server endpoint.
    Server,
    /// A websocket client endpoint.
    Client,
}

/// The type of data carried by a WebSocket message: UTF-8 text or raw bytes.
#[derive(Debug, Clone, Copy, PartialEq, Eq, Structural)]
pub enum MessageType {
    /// A sequence of Unicode characters encoded as UTF-8.
    Text,
    /// An arbitrary sequence of bytes.
    Binary,
}

impl MessageType {
    /// Returns `true` if the message type is text.
    pub fn is_text(&self) -> (r: bool)
        ensures
            r == (*self == MessageType::Text),
    {
        matches!(self, MessageType::Text)
    }

    /// Returns `true` if the message type is binary.
    pub fn is_binary(&self) -> (r: bool)
        ensures
            r == (*self == MessageType::Binary),
    {
        matches!(self, MessageType::Binary)
    }
}

/// The position of a frame within a fragmented message.
#[derive(Debug, Clone, Copy, PartialEq, Eq, Structural)]
pub enum Stream {
    /// The first frame of a fragmented message of the given [`MessageType`].
    Start(MessageType),
    /// A middle frame of the fragmented message that began with the given type.
    Next(MessageType),
    /// The final frame of the fragmented message that began with the given type.
    End(MessageType),
}

impl Stream {
    /// The [`MessageType`] that the fragmented message carries.
    pub fn ty(&self) -> (r: MessageType)
        ensures
            r == self.ty_spec(),
    {
        match *self {
            Stream::Start(ty) => ty,
            Stream::Next(ty) => ty,
            Stream::End(ty) => ty,
        }
    }

    /// The message type of a fragment, whichever position it is in.
    pub open spec fn ty_spec(&self) -> MessageType {
        match *self {
            Stream::Start(ty) => ty,
            Stream::Next(ty) => ty,
            Stream::End(ty) => ty,
        }
    }
}

/// Whether a data frame carries a whole message or one fragment of it.
#[derive(Debug, Clone, Copy, PartialEq, Eq, Structural)]
pub enum DataType {
    /// One frame of a message that is split over several frames.
    Stream(Stream),
    /// A complete message carried by a single frame.
    Complete(MessageType),
}

impl DataType {
    /// The [`MessageType`] that the frame carries.
    pub fn ty(&self) -> (r: MessageType)
        ensures
            r == self.ty_spec(),
    {
        match *self {
            DataType::Stream(s) => s.ty(),
            DataType::Complete(ty) => ty,
        }
    }

    /// The message type of a data frame, complete or fragmented.
    pub open spec fn ty_spec(&self) -> MessageType {
        match *self {
            DataType::Stream(s) => s.ty_spec(),
            DataType::Complete(ty) => ty,
        }
    }
}

/// One event surfaced to the caller by [`ws::WebSocket::recv`].
#[derive(Debug, PartialEq, Eq)]
pub enum Event {
    /// A data frame, complete or one fragment of a message.
    Data {
        /// Whether the payload is a whole message or a fragment, and its type.
        ty: DataType,
        /// The payload bytes, unmasked.
        data: Vec<u8>,
    },
    /// A ping frame; the caller should answer with a pong carrying the same payload.
    Ping(Vec<u8>),
    /// A pong frame, usually answering an earlier ping.
    Pong(Vec<u8>),
    /// A protocol error; the connection is closed after this event.
    Error(&'static str),
    /// A close frame; the connection is closed after this event.
    Close {
        /// The 16-bit status code carried by the close frame, 1000 when absent.
        code: u16,
        /// The UTF-8 reason carried after the status code, empty when absent.
        reason: String,
    },
}

/// The mathematical value of an [`Event`]: payloads as byte sequences and
/// texts as character sequences.
pub enum EventView {
    /// A data frame.
    Data {
        /// Whether the payload is a whole message or a fragment, and its type.
        ty: DataType,
        /// The payload bytes, unmasked.
        data: Seq<u8>,
    },
    /// A ping frame.
    Ping(Seq<u8>),
    /// A pong frame.
    Pong(Seq<u8>),
    /// A protocol error message.
    Error(Seq<char>),
    /// A close frame.
    Close {
        /// The status code.
        code: u16,
        /// The close reason.
        reason: Seq<char>,
    },
}

impl View for Event {
    type V = EventView;

    open spec fn view(&self) -> EventView {
        match self {
            Event::Data { ty, data } => EventView::Data { ty: *ty, data: data@ },
            Event::Ping(data) => EventView::Ping(data@),
            Event::Pong(data) => EventView::Pong(data@),
            Event::Error(msg) => EventView::Error(msg@),
            Event::Close { code, reason } => EventView::Close { code: *code, reason: reason@ },
        }
    }
}

/// Close status codes named by RFC 6455 section 7.4.1.
#[derive(Debug, Clone, Copy, PartialEq, Eq, Structural)]
pub enum CloseCode {
    /// The purpose for which the connection was established has been fulfilled.
    Normal,
    /// The endpoint is going away.
    Away,
    /// The endpoint is terminating the connection due to a protocol error.
    ProtocolError,
    /// The endpoint received a type of data it cannot accept.
    Unsupported,
    /// No status code was present; never sent on the wire.
    NoStatusRcvd,
    /// The connection was closed abnormally; never sent on the wire.
    Abnormal,
    /// A message was received whose data is inconsistent with its type.
    InvalidPayload,
    /// A generic code used when no more suitable code applies.
    PolicyViolation,
    /// A message is too big to process.
    MessageTooBig,
    /// The client expected the server to negotiate one or more extensions.
    MandatoryExt,
    /// The server met an unexpected condition; the request cannot be fulfilled.
    InternalError,
    /// The TLS handshake failed; never sent on the wire.
    TLSHandshake,
}

impl CloseCode {
    /// The 16-bit value of a close code, as carried on the wire.
    pub open spec fn as_u16_spec(self) -> u16 {
        match self {
            CloseCode::Normal => 1000,
            CloseCode::Away => 1001,
            CloseCode::ProtocolError => 1002,
            CloseCode::Unsupported => 1003,
            CloseCode::NoStatusRcvd => 1005,
            CloseCode::Abnormal => 1006,
            CloseCode::InvalidPayload => 1007,
            CloseCode::PolicyViolation => 1008,
            CloseCode::MessageTooBig => 1009,
            CloseCode::MandatoryExt => 1010,
            CloseCode::InternalError => 1011,
            CloseCode::TLSHandshake => 1015,
        }
    }

    /// The 16-bit value of a close code, as carried on the wire.
    pub fn as_u16(self) -> (r: u16)
        ensures
            r == self.as_u16_spec(),
    {
        match self {
            CloseCode::Normal => 1000,
            CloseCode::Away => 1001,
            CloseCode::ProtocolError => 1002,
            CloseCode::Unsupported => 1003,
            CloseCode::NoStatusRcvd => 1005,
            CloseCode::Abnormal => 1006,
            CloseCode::InvalidPayload => 1007,
            CloseCode::PolicyViolation => 1008,
            CloseCode::MessageTooBig => 1009,
            CloseCode::MandatoryExt => 1010,
            CloseCode::InternalError => 1011,
            CloseCode::TLSHandshake => 1015,
        }
    }

    /// The close code denoted by a 16-bit value; values that RFC 6455 names no
    /// code for map to `PolicyViolation`, as the most generic code.
    pub open spec fn from_u16_spec(value: u16) -> CloseCode {
        if value == 1000 {
            CloseCode::Normal
        } else if value == 1001 {
            CloseCode::Away
        } else if value == 1002 {
            CloseCode::ProtocolError
        } else if value == 1003 {
            CloseCode::Unsupported
        } else if value == 1005 {
            CloseCode::NoStatusRcvd
        } else if value == 1006 {
            CloseCode::Abnormal
        } else if value == 1007 {
            CloseCode::InvalidPayload
        } else if value == 1009 {
            CloseCode::MessageTooBig
        } else if value == 1010 {
            CloseCode::MandatoryExt
        } else if value == 1011 {
            CloseCode::InternalError
        } else if value == 1015 {
            CloseCode::TLSHandshake
        } else {
            CloseCode::PolicyViolation
        }
    }

    /// The close code denoted by a 16-bit value.
    pub fn from_u16(value: u16) -> (r: CloseCode)
        ensures
            r == CloseCode::from_u16_spec(value),
    {
        match value {
            1000 => CloseCode::Normal,
            1001 => CloseCode::Away,
            1002 => CloseCode::ProtocolError,
            1003 => CloseCode::Unsupported,
            1005 => CloseCode::NoStatusRcvd,
            1006 => CloseCode::Abnormal,
            1007 => CloseCode::InvalidPayload,
            1009 => CloseCode::MessageTooBig,
            1010 => CloseCode::MandatoryExt,
            1011 => CloseCode::InternalError,
            1015 => CloseCode::TLSHandshake,
            _ => CloseCode::PolicyViolation,
        }
    }
}

/// The set of close codes an endpoint may put on the wire:
/// 1000-1003, 1007-1011, 3000-4999 (RFC 6455 section 7.4).
pub open spec fn sendable_close_code(code: u16) -> bool {
    (1000 <= code <= 1003) || (1007 <= code <= 1011) || (3000 <= code <= 4999)
}

/// The set of close codes accepted in a received close frame: the sendable
/// set together with 1015, which peers observe after a failed TLS handshake.
pub open spec fn valid_recv_close_code(code: u16) -> bool {
    sendable_close_code(code) || code == 1015
}

} // verus!
