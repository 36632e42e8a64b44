//! The connection state machine: fragmentation tracking, role-dependent
//! validation, and the event stream surfaced to callers.
//!
//! The machine is sans-I/O. [`WebSocket::recv`] consumes one frame from a
//! byte buffer the embedding has read off the wire and returns the event it
//! carries together with the number of bytes consumed; the send family of
//! methods return the bytes to put on the wire.

use vstd::prelude::*;

use crate::frame::{be16, be64, client_frame, frame_bytes, u16_be_bytes, Frame};
use crate::mask::{apply_mask, masked_bytes};
use crate::{valid_recv_close_code, CloseCode, DataType, Event, EventView, MessageType, Role, Stream};
use vstd::slice::slice_to_vec;
use vstd::string::StringSliceAdditionalSpecFns;
use vstd::utf8::{decode_utf8, valid_utf8};

verus! {

/// The default ceiling on a single payload: 16 MiB.
pub const DEFAULT_MAX_PAYLOAD_LEN: usize = 16 * 1024 * 1024;

/// One verdict of the receive step function: either the buffer does not yet
/// hold a whole frame, or one frame was consumed, yielding an event, the new
/// fragmentation cursor, and the number of bytes used. A protocol error is a
/// step too: its event is `Error`, it uses no bytes, and it leaves the
/// cursor alone, since the connection closes anyway.
pub enum RecvStep {
    /// More bytes are needed before a whole frame is present.
    Incomplete,
    /// One frame was consumed.
    Step {
        /// The event the frame carries.
        event: EventView,
        /// The fragmentation cursor after the frame.
        fragment: Option<MessageType>,
        /// How many bytes of the buffer the frame occupied; zero on error.
        used: nat,
    },
}

/// A protocol-error step: an error event that uses no bytes and leaves the
/// fragmentation cursor as it was.
pub open spec fn err_step(frag: Option<MessageType>, msg: Seq<char>) -> RecvStep {
    RecvStep::Step { event: EventView::Error(msg), fragment: frag, used: 0 }
}

/// The event carried by a close frame payload. An absent code stands for
/// 1000; a code outside the receivable set or a reason that is not UTF-8
/// fails the connection.
pub open spec fn spec_close_event(msg: Seq<u8>) -> EventView {
    if msg.len() < 2 {
        EventView::Close { code: 1000, reason: Seq::empty() }
    } else {
        let code = (msg[0] * 256 + msg[1]) as u16;
        if !valid_recv_close_code(code) {
            EventView::Error("invalid close code"@)
        } else {
            let rest = msg.skip(2);
            if valid_utf8(rest) {
                EventView::Close { code, reason: decode_utf8(rest) }
            } else {
                EventView::Error("invalid utf-8 payload"@)
            }
        }
    }
}

/// The event and new cursor for a data frame, given the opcode, the fin
/// flag and the current cursor. Meaningful only after the fragmentation
/// rules held: a continuation frame needs an open cursor, any other data
/// frame a closed one.
pub open spec fn data_frame_type(opcode: u8, fin: bool, frag: Option<MessageType>) -> (
    DataType,
    Option<MessageType>,
)
    recommends
        (opcode == 0) == (frag is Some),
        opcode <= 2,
{
    if opcode == 0 {
        match frag {
            Some(t) => if fin {
                (DataType::Stream(Stream::End(t)), None)
            } else {
                (DataType::Stream(Stream::Next(t)), Some(t))
            },
            None => (DataType::Complete(MessageType::Text), None),
        }
    } else {
        let mt = if opcode == 1 {
            MessageType::Text
        } else {
            MessageType::Binary
        };
        if fin {
            (DataType::Complete(mt), None)
        } else {
            (DataType::Stream(Stream::Start(mt)), Some(mt))
        }
    }
}

/// The control-frame tail of the receive step: the mask keys, when present,
/// stand at offset 2 and the payload follows.
pub open spec fn spec_recv_control(
    frag: Option<MessageType>,
    bytes: Seq<u8>,
    opcode: u8,
    masked: bool,
    len: nat,
) -> RecvStep {
    let pos: nat = if masked {
        6
    } else {
        2
    };
    if bytes.len() < pos + len {
        RecvStep::Incomplete
    } else {
        let key = bytes.subrange(2, 6);
        let raw = bytes.subrange(pos as int, (pos + len) as int);
        let payload = if masked {
            masked_bytes(raw, key)
        } else {
            raw
        };
        if opcode == 8 {
            RecvStep::Step { event: spec_close_event(payload), fragment: frag, used: pos + len }
        } else if opcode == 9 {
            RecvStep::Step { event: EventView::Ping(payload), fragment: frag, used: pos + len }
        } else if opcode == 10 {
            RecvStep::Step { event: EventView::Pong(payload), fragment: frag, used: pos + len }
        } else {
            err_step(frag, "unknown opcode"@)
        }
    }
}

/// The data-frame tail of the receive step: the payload length is checked
/// against the ceiling, then the mask keys, when present, stand at `pos`
/// and the payload follows.
pub open spec fn spec_recv_data(
    frag: Option<MessageType>,
    bytes: Seq<u8>,
    masked: bool,
    max: nat,
    ty: DataType,
    new_frag: Option<MessageType>,
    len: nat,
    pos: nat,
) -> RecvStep {
    if len > max {
        err_step(frag, "payload too large"@)
    } else {
        let mpos: nat = pos + if masked {
            4nat
        } else {
            0nat
        };
        if bytes.len() < mpos + len {
            RecvStep::Incomplete
        } else {
            let key = bytes.subrange(pos as int, pos as int + 4);
            let raw = bytes.subrange(mpos as int, (mpos + len) as int);
            let payload = if masked {
                masked_bytes(raw, key)
            } else {
                raw
            };
            RecvStep::Step {
                event: EventView::Data { ty, data: payload },
                fragment: new_frag,
                used: mpos + len,
            }
        }
    }
}

/// One step of the receive side: reads one frame from the start of `bytes`
/// and yields the event it carries, enforcing in order the reserved bits,
/// the role masking rule, the control-frame rules, known opcodes, the
/// fragmentation rules, and the payload ceiling.
pub open spec fn spec_recv(
    role: Role,
    frag: Option<MessageType>,
    max: nat,
    bytes: Seq<u8>,
) -> RecvStep {
    if bytes.len() < 2 {
        RecvStep::Incomplete
    } else {
        let b1 = bytes[0];
        let b2 = bytes[1];
        let fin = b1 >= 128;
        let rsv = (b1 / 16) % 8;
        let opcode = (b1 % 16) as u8;
        let masked = b2 >= 128;
        let short = (b2 % 128) as nat;
        if rsv != 0 {
            err_step(frag, "reserve bit must be `0`"@)
        } else if role == Role::Server && !masked {
            err_step(frag, "expected masked frame"@)
        } else if role == Role::Client && masked {
            err_step(frag, "expected unmasked frame"@)
        } else if opcode >= 8 {
            if !fin {
                err_step(frag, "control frame must not be fragmented"@)
            } else if short > 125 {
                err_step(frag, "control frame must have a payload length of 125 bytes or less"@)
            } else {
                spec_recv_control(frag, bytes, opcode, masked, short)
            }
        } else if opcode >= 3 {
            err_step(frag, "unknown opcode"@)
        } else if (opcode == 1 || opcode == 2) && frag is Some {
            err_step(frag, "expected continuation frame"@)
        } else if opcode == 0 && frag is None {
            err_step(frag, "unexpected continuation"@)
        } else {
            let (ty, new_frag) = data_frame_type(opcode, fin, frag);
            if short == 126 {
                if bytes.len() < 4 {
                    RecvStep::Incomplete
                } else {
                    spec_recv_data(
                        frag,
                        bytes,
                        masked,
                        max,
                        ty,
                        new_frag,
                        be16(bytes[2], bytes[3]),
                        4,
                    )
                }
            } else if short == 127 {
                if bytes.len() < 10 {
                    RecvStep::Incomplete
                } else {
                    spec_recv_data(
                        frag,
                        bytes,
                        masked,
                        max,
                        ty,
                        new_frag,
                        be64(bytes.subrange(2, 10)),
                        10,
                    )
                }
            } else {
                spec_recv_data(frag, bytes, masked, max, ty, new_frag, short, 2)
            }
        }
    }
}


/// Why a receive call returned no event.
#[derive(Debug, Clone, Copy, PartialEq, Eq, Structural)]
pub enum RecvError {
    /// The connection is closed; no further events are delivered.
    Closed,
    /// The buffer does not yet hold a whole frame; read more bytes.
    Incomplete,
}

/// Relies on str::from_utf8 for UTF-8 validation and decoding: the result
/// is the decoded string exactly when the bytes are valid UTF-8, as vstd's
/// UTF-8 model states it.
#[verifier::external_body]
fn utf8_to_string(bytes: &[u8]) -> (r: Option<String>)
    ensures
        match r {
            Some(s) => valid_utf8(bytes@) && s@ == decode_utf8(bytes@),
            None => !valid_utf8(bytes@),
        },
{
    std::str::from_utf8(bytes).ok().map(|s| s.to_string())
}

/// The event carried by the payload of a close frame: its status code,
/// 1000 when absent, and its UTF-8 reason.
pub fn on_close(msg: &[u8]) -> (ev: Event)
    ensures
        ev@ == spec_close_event(msg@),
{
    if msg.len() < 2 {
        return Event::Close { code: 1000, reason: String::new() };
    }
    let code: u16 = (msg[0] as u16) * 256 + (msg[1] as u16);
    let valid = (1000 <= code && code <= 1003) || (1007 <= code && code <= 1011) || code == 1015
        || (3000 <= code && code <= 4999);
    if !valid {
        return Event::Error("invalid close code");
    }
    match utf8_to_string(&msg[2..msg.len()]) {
        Some(reason) => Event::Close { code, reason },
        None => Event::Error("invalid utf-8 payload"),
    }
}

/// Copies `len` payload bytes out of `buf`. When `masked` holds, the four
/// mask keys stand at `pos`, the payload follows them and is unmasked;
/// otherwise the payload itself stands at `pos`.
fn extract_payload(buf: &[u8], masked: bool, pos: usize, len: usize) -> (out: Vec<u8>)
    requires
        masked ==> pos + 4 + len <= buf@.len(),
        !masked ==> pos + len <= buf@.len(),
    ensures
        masked ==> out@ == masked_bytes(
            buf@.subrange(pos + 4, pos + 4 + len),
            buf@.subrange(pos as int, pos as int + 4),
        ),
        !masked ==> out@ == buf@.subrange(pos as int, pos as int + len),
{
    let total = buf.len();
    if masked {
        let key = [buf[pos], buf[pos + 1], buf[pos + 2], buf[pos + 3]];
        let mut out = slice_to_vec(&buf[pos + 4..pos + 4 + len]);
        apply_mask(&mut out, key);
        assert(key@ =~= buf@.subrange(pos as int, pos as int + 4));
        out
    } else {
        assert(pos + len <= total);
        slice_to_vec(&buf[pos..pos + len])
    }
}

/// A WebSocket connection: the protocol state between the bytes read off
/// the wire and the events surfaced to the caller. The byte stream itself
/// lives with the embedding.
#[derive(Debug, PartialEq, Eq, Structural)]
pub struct WebSocket {
    /// Maximum allowed payload length in bytes. Default: 16 MiB.
    pub max_payload_len: usize,
    /// Whether this endpoint is the client or the server.
    pub role: Role,
    /// Whether a close frame or a fatal error was seen; once set, no
    /// further events are delivered.
    pub is_closed: bool,
    /// The fragmentation cursor: the message type that opened a still
    /// unfinished fragmented message, if one is in progress.
    pub fragment: Option<MessageType>,
}

impl WebSocket {
    /// A fresh connection of the given role: open, idle cursor, default
    /// payload ceiling.
    pub fn new(role: Role) -> (ws: WebSocket)
        ensures
            ws == (WebSocket {
                max_payload_len: DEFAULT_MAX_PAYLOAD_LEN,
                role,
                is_closed: false,
                fragment: None,
            }),
    {
        WebSocket { max_payload_len: DEFAULT_MAX_PAYLOAD_LEN, role, is_closed: false, fragment: None }
    }

    /// A fresh client connection.
    pub fn client() -> (ws: WebSocket)
        ensures
            ws == (WebSocket {
                max_payload_len: DEFAULT_MAX_PAYLOAD_LEN,
                role: Role::Client,
                is_closed: false,
                fragment: None,
            }),
    {
        WebSocket::new(Role::Client)
    }

    /// A fresh server connection.
    pub fn server() -> (ws: WebSocket)
        ensures
            ws == (WebSocket {
                max_payload_len: DEFAULT_MAX_PAYLOAD_LEN,
                role: Role::Server,
                is_closed: false,
                fragment: None,
            }),
    {
        WebSocket::new(Role::Server)
    }

    /// Consumes one frame from the start of `buf` and returns its event and
    /// the number of bytes used, updating the fragmentation cursor; exactly
    /// the step that [`spec_recv`] takes. The closed flag is not consulted
    /// or touched; [`WebSocket::recv`] wraps this with it.
    #[verifier::rlimit(100)]
    pub fn recv_event(&mut self, buf: &[u8]) -> (r: Result<(Event, usize), RecvError>)
        ensures
            final(self).role == old(self).role,
            final(self).max_payload_len == old(self).max_payload_len,
            final(self).is_closed == old(self).is_closed,
            match r {
                Ok((ev, used)) => spec_recv(
                    old(self).role,
                    old(self).fragment,
                    old(self).max_payload_len as nat,
                    buf@,
                ) == (RecvStep::Step {
                    event: ev@,
                    fragment: final(self).fragment,
                    used: used as nat,
                }),
                Err(RecvError::Incomplete) => {
                    &&& spec_recv(
                        old(self).role,
                        old(self).fragment,
                        old(self).max_payload_len as nat,
                        buf@,
                    ) is Incomplete
                    &&& *final(self) == *old(self)
                },
                Err(RecvError::Closed) => false,
            },
    {
        if buf.len() < 2 {
            return Err(RecvError::Incomplete);
        }
        let b1 = buf[0];
        let b2 = buf[1];
        let fin = b1 >= 128;
        let rsv = b1 / 16 % 8;
        let opcode = b1 % 16;
        let masked = b2 >= 128;
        let short = (b2 % 128) as usize;
        if rsv != 0 {
            return Ok((Event::Error("reserve bit must be `0`"), 0));
        }
        if matches!(self.role, Role::Server) {
            if !masked {
                return Ok((Event::Error("expected masked frame"), 0));
            }
        } else if masked {
            return Ok((Event::Error("expected unmasked frame"), 0));
        }
        if opcode >= 8 {
            if !fin {
                return Ok((Event::Error("control frame must not be fragmented"), 0));
            }
            if short > 125 {
                return Ok((
                    Event::Error("control frame must have a payload length of 125 bytes or less"),
                    0,
                ));
            }
            let pos: usize = if masked {
                6
            } else {
                2
            };
            if buf.len() < pos + short {
                return Err(RecvError::Incomplete);
            }
            let payload = extract_payload(buf, masked, 2, short);
            let used = pos + short;
            if opcode == 8 {
                return Ok((on_close(payload.as_slice()), used));
            } else if opcode == 9 {
                return Ok((Event::Ping(payload), used));
            } else if opcode == 10 {
                return Ok((Event::Pong(payload), used));
            } else {
                return Ok((Event::Error("unknown opcode"), 0));
            }
        }
        if opcode >= 3 {
            return Ok((Event::Error("unknown opcode"), 0));
        }
        let ty: DataType;
        let new_frag: Option<MessageType>;
        if opcode == 1 || opcode == 2 {
            if self.fragment.is_some() {
                return Ok((Event::Error("expected continuation frame"), 0));
            }
            let mt = if opcode == 1 {
                MessageType::Text
            } else {
                MessageType::Binary
            };
            if fin {
                ty = DataType::Complete(mt);
                new_frag = None;
            } else {
                ty = DataType::Stream(Stream::Start(mt));
                new_frag = Some(mt);
            }
        } else {
            match self.fragment {
                None => {
                    return Ok((Event::Error("unexpected continuation"), 0));
                },
                Some(t) => {
                    if fin {
                        ty = DataType::Stream(Stream::End(t));
                        new_frag = None;
                    } else {
                        ty = DataType::Stream(Stream::Next(t));
                        new_frag = Some(t);
                    }
                },
            }
        }
        let len: u64;
        let pos: usize;
        if short == 126 {
            if buf.len() < 4 {
                return Err(RecvError::Incomplete);
            }
            len = (buf[2] as u64) * 256 + (buf[3] as u64);
            pos = 4;
        } else if short == 127 {
            if buf.len() < 10 {
                return Err(RecvError::Incomplete);
            }
            len = (buf[2] as u64) * 0x100000000000000 + (buf[3] as u64) * 0x1000000000000 + (
            buf[4] as u64) * 0x10000000000 + (buf[5] as u64) * 0x100000000 + (buf[6] as u64)
                * 0x1000000 + (buf[7] as u64) * 0x10000 + (buf[8] as u64) * 0x100 + (buf[9] as u64);
            assert(buf@.subrange(2, 10) =~= seq![
                buf@[2],
                buf@[3],
                buf@[4],
                buf@[5],
                buf@[6],
                buf@[7],
                buf@[8],
                buf@[9],
            ]);
            pos = 10;
        } else {
            len = short as u64;
            pos = 2;
        }
        if len > self.max_payload_len as u64 {
            return Ok((Event::Error("payload too large"), 0));
        }
        let len = len as usize;
        let mpos: usize = if masked {
            pos + 4
        } else {
            pos
        };
        if buf.len() < mpos || buf.len() - mpos < len {
            return Err(RecvError::Incomplete);
        }
        let payload = extract_payload(buf, masked, pos, len);
        self.fragment = new_frag;
        Ok((Event::Data { ty, data: payload }, mpos + len))
    }

    /// Returns the next event from the bytes in `buf`, or asks for more.
    /// Fails with `Closed` once the connection is closed; a close frame or
    /// any protocol error closes it.
    pub fn recv(&mut self, buf: &[u8]) -> (r: Result<(Event, usize), RecvError>)
        ensures
            final(self).role == old(self).role,
            final(self).max_payload_len == old(self).max_payload_len,
            old(self).is_closed ==> r == Err::<(Event, usize), RecvError>(RecvError::Closed)
                && *final(self) == *old(self),
            !old(self).is_closed ==> match r {
                Ok((ev, used)) => {
                    &&& spec_recv(
                        old(self).role,
                        old(self).fragment,
                        old(self).max_payload_len as nat,
                        buf@,
                    ) == (RecvStep::Step {
                        event: ev@,
                        fragment: final(self).fragment,
                        used: used as nat,
                    })
                    &&& final(self).is_closed == (ev@ is Error || ev@ is Close)
                },
                Err(RecvError::Incomplete) => {
                    &&& spec_recv(
                        old(self).role,
                        old(self).fragment,
                        old(self).max_payload_len as nat,
                        buf@,
                    ) is Incomplete
                    &&& *final(self) == *old(self)
                },
                Err(RecvError::Closed) => false,
            },
    {
        if self.is_closed {
            return Err(RecvError::Closed);
        }
        let r = self.recv_event(buf);
        match &r {
            Ok((Event::Close { .. }, _)) | Ok((Event::Error(..), _)) => {
                self.is_closed = true;
            },
            _ => {},
        }
        r
    }
}


/// Why a send call refused to build a frame.
#[derive(Debug, Clone, Copy, PartialEq, Eq, Structural)]
pub enum SendError {
    /// A control frame payload may hold at most 125 bytes.
    ControlTooLong,
}

/// Holds when `out` is a frame the given role may put on the wire: servers
/// emit the unmasked image, clients the image under some 4-byte mask.
pub open spec fn sent_frame(role: Role, out: Seq<u8>, fin: bool, opcode: u8, data: Seq<u8>) -> bool {
    match role {
        Role::Server => out == frame_bytes(fin, opcode, None, data),
        Role::Client => client_frame(out, fin, opcode, data),
    }
}

/// A value that encodes to the payload of a close frame: nothing, a bare
/// status code, a named code, or a code with a reason.
pub trait CloseReason: Sized {
    /// The close-frame payload this value encodes to.
    spec fn reason_bytes(&self) -> Seq<u8>;

    /// Encodes this value; a close payload never exceeds the 125-byte
    /// control-frame ceiling.
    fn to_bytes(self) -> (r: Vec<u8>)
        ensures
            r@ == self.reason_bytes(),
            r@.len() <= 125,
    ;
}

impl CloseReason for () {
    /// An empty payload: no status code is sent.
    open spec fn reason_bytes(&self) -> Seq<u8> {
        Seq::empty()
    }

    fn to_bytes(self) -> (r: Vec<u8>) {
        let r = Vec::new();
        assert(r@ =~= Seq::<u8>::empty());
        r
    }
}

impl CloseReason for u16 {
    /// The status code alone, big-endian.
    open spec fn reason_bytes(&self) -> Seq<u8> {
        u16_be_bytes(*self as nat)
    }

    fn to_bytes(self) -> (r: Vec<u8>) {
        let mut r: Vec<u8> = Vec::new();
        r.push((self / 256) as u8);
        r.push((self % 256) as u8);
        assert(r@ =~= u16_be_bytes(self as nat));
        r
    }
}

impl CloseReason for CloseCode {
    /// The 16-bit value of the code, big-endian.
    open spec fn reason_bytes(&self) -> Seq<u8> {
        u16_be_bytes(self.as_u16_spec() as nat)
    }

    fn to_bytes(self) -> (r: Vec<u8>) {
        CloseReason::to_bytes(self.as_u16())
    }
}

impl CloseReason for (u16, &str) {
    /// The status code followed by the reason, whose UTF-8 image is cut at
    /// 123 bytes so the whole payload stays within the control-frame
    /// ceiling.
    open spec fn reason_bytes(&self) -> Seq<u8> {
        let rb = self.1.spec_bytes();
        u16_be_bytes(self.0 as nat) + if rb.len() <= 123 {
            rb
        } else {
            rb.take(123)
        }
    }

    fn to_bytes(self) -> (r: Vec<u8>) {
        let mut r: Vec<u8> = CloseReason::to_bytes(self.0);
        let bytes = self.1.as_bytes();
        let n = if bytes.len() <= 123 {
            bytes.len()
        } else {
            123
        };
        r.extend_from_slice(&bytes[0..n]);
        assert(r@ =~= self.reason_bytes());
        r
    }
}

impl CloseReason for &str {
    /// A reason alone stands for code 1000 with that reason.
    open spec fn reason_bytes(&self) -> Seq<u8> {
        let rb = self.spec_bytes();
        u16_be_bytes(1000) + if rb.len() <= 123 {
            rb
        } else {
            rb.take(123)
        }
    }

    fn to_bytes(self) -> (r: Vec<u8>) {
        let r = CloseReason::to_bytes((1000u16, self));
        assert(r@ == self.reason_bytes());
        r
    }
}

impl WebSocket {
    /// The wire image of one caller-built frame under this connection's
    /// role: masked for a client, bare for a server.
    pub fn send_raw(&self, frame: &Frame) -> (out: Vec<u8>)
        requires
            frame.wf(),
        ensures
            sent_frame(self.role, out@, frame.fin, frame.opcode, frame.data@),
    {
        match self.role {
            Role::Server => frame.encode_without_mask(),
            Role::Client => frame.encode_with_mask(),
        }
    }

    /// Sends a message frame: the wire image of `frame` under this
    /// connection's role.
    pub fn send(&self, frame: &Frame) -> (out: Vec<u8>)
        requires
            frame.wf(),
        ensures
            sent_frame(self.role, out@, frame.fin, frame.opcode, frame.data@),
    {
        self.send_raw(frame)
    }

    /// A ping frame carrying `data`, which may hold at most 125 bytes.
    pub fn send_ping(&self, data: &[u8]) -> (r: Result<Vec<u8>, SendError>)
        ensures
            data@.len() <= 125 ==> (r matches Ok(out) && sent_frame(
                self.role,
                out@,
                true,
                9,
                data@,
            )),
            data@.len() > 125 ==> r == Err::<Vec<u8>, SendError>(SendError::ControlTooLong),
    {
        if data.len() > 125 {
            return Err(SendError::ControlTooLong);
        }
        let frame = Frame { fin: true, opcode: 9, data: slice_to_vec(data) };
        Ok(self.send_raw(&frame))
    }

    /// A pong frame carrying `data`, which may hold at most 125 bytes.
    pub fn send_pong(&self, data: &[u8]) -> (r: Result<Vec<u8>, SendError>)
        ensures
            data@.len() <= 125 ==> (r matches Ok(out) && sent_frame(
                self.role,
                out@,
                true,
                10,
                data@,
            )),
            data@.len() > 125 ==> r == Err::<Vec<u8>, SendError>(SendError::ControlTooLong),
    {
        if data.len() > 125 {
            return Err(SendError::ControlTooLong);
        }
        let frame = Frame { fin: true, opcode: 10, data: slice_to_vec(data) };
        Ok(self.send_raw(&frame))
    }

    /// A close frame carrying the encoded `reason`, and marks the
    /// connection closed, so further receives fail.
    pub fn close<T: CloseReason>(&mut self, reason: T) -> (out: Vec<u8>)
        ensures
            final(self).is_closed,
            final(self).role == old(self).role,
            final(self).max_payload_len == old(self).max_payload_len,
            final(self).fragment == old(self).fragment,
            sent_frame(old(self).role, out@, true, 8, reason.reason_bytes()),
    {
        let data = reason.to_bytes();
        let frame = Frame { fin: true, opcode: 8, data };
        let out = self.send_raw(&frame);
        self.is_closed = true;
        out
    }
}

/// The fragmentation cursor mirrors every data event and survives every
/// control event: after a complete message or the end of a stream it is
/// empty; after the start or middle of a stream it holds that stream's
/// type; a ping, pong or close leaves it alone.
pub proof fn lemma_fragment_cursor(role: Role, frag: Option<MessageType>, max: nat, bytes: Seq<u8>)
    ensures
        match spec_recv(role, frag, max, bytes) {
            RecvStep::Step { event, fragment, used } => match event {
                EventView::Data { ty, .. } => match ty {
                    DataType::Complete(_) => fragment is None,
                    DataType::Stream(Stream::End(_)) => fragment is None,
                    DataType::Stream(Stream::Start(t)) => fragment == Some(t),
                    DataType::Stream(Stream::Next(t)) => fragment == Some(t),
                },
                EventView::Ping(_) => fragment == frag,
                EventView::Pong(_) => fragment == frag,
                EventView::Close { .. } => fragment == frag,
                EventView::Error(_) => fragment == frag,
            },
            RecvStep::Incomplete => true,
        },
{
}

/// A frame with a nonzero reserved bit, a mask on the wrong side, or a
/// reserved opcode never yields anything but an error event, which leaves
/// the cursor alone; the connection closes on it.
pub proof fn lemma_bad_frame_errors(role: Role, frag: Option<MessageType>, max: nat, bytes: Seq<u8>)
    requires
        bytes.len() >= 2,
    ensures
        ({
            let b1 = bytes[0];
            let b2 = bytes[1];
            let rsv_bad = (b1 / 16) % 8 != 0;
            let mask_bad = if role == Role::Server {
                b2 < 128
            } else {
                b2 >= 128
            };
            let op = b1 % 16;
            let op_reserved = (3 <= op && op <= 7) || (11 <= op && op <= 15);
            (rsv_bad || mask_bad || op_reserved) ==> match spec_recv(role, frag, max, bytes) {
                RecvStep::Step { event, fragment, used } => event is Error && fragment == frag
                    && used == 0,
                RecvStep::Incomplete => true,
            }
        }),
{
}

} // verus!

verus! {

/// Wire round trip through the connection: a data frame one endpoint emits
/// is read back by the peer in one step, yielding exactly the payload that
/// was sent and consuming the whole frame. The emitter masks exactly when
/// the receiving role is the server.
#[verifier::rlimit(100)]
pub proof fn lemma_wire_round_trip(
    role: Role,
    fin: bool,
    opcode: u8,
    mask: Option<Seq<u8>>,
    data: Seq<u8>,
    max: nat,
)
    requires
        opcode == 1 || opcode == 2,
        (role == Role::Server) == (mask is Some),
        mask matches Some(k) ==> k.len() == 4,
        data.len() <= max,
        data.len() < 0x10000000000000000,
    ensures
        ({
            let bytes = frame_bytes(fin, opcode, mask, data);
            let (ty, new_frag) = data_frame_type(opcode, fin, None);
            spec_recv(role, None, max, bytes) == (RecvStep::Step {
                event: EventView::Data { ty, data },
                fragment: new_frag,
                used: bytes.len(),
            })
        }),
{
    let masked = mask is Some;
    let bytes = frame_bytes(fin, opcode, mask, data);
    let lb = crate::frame::len_bytes(masked, data.len());
    let hl = 1 + lb.len();
    let b1 = crate::frame::first_byte(fin, 0, opcode);
    assert(bytes[0] == b1);
    assert(bytes[1] == lb[0]);
    crate::frame::lemma_first_byte_fields(fin, opcode);

    let l = data.len();
    let ty_frag = data_frame_type(opcode, fin, None);
    let pos: nat = if l < 126 {
        2
    } else if l < 65536 {
        4
    } else {
        10
    };

    // the length field reads back as the payload length, at offset `pos`
    if l < 126 {
        crate::frame::lemma_len_byte_fields(masked, l);
    } else if l < 65536 {
        crate::frame::lemma_len_byte_fields(masked, 126);
        crate::frame::lemma_be16_round_trip(l);
        assert(bytes[2] == u16_be_bytes(l)[0]);
        assert(bytes[3] == u16_be_bytes(l)[1]);
        assert(be16(bytes[2], bytes[3]) == l);
    } else {
        crate::frame::lemma_len_byte_fields(masked, 127);
        crate::frame::lemma_be64_round_trip(l);
        assert(bytes.subrange(2, 10) =~= crate::frame::u64_be_bytes(l));
        assert(be64(bytes.subrange(2, 10)) == l);
    }

    // the step reduces to its data-frame tail
    assert(spec_recv(role, None, max, bytes) == spec_recv_data(
        None,
        bytes,
        masked,
        max,
        ty_frag.0,
        ty_frag.1,
        l,
        pos,
    ));

    // and the tail consumes the mask keys and the payload
    match mask {
        Some(key) => {
            let mpos = pos + 4;
            assert(bytes.len() == mpos + l);
            assert(bytes.subrange(pos as int, pos as int + 4) =~= key);
            assert(bytes.subrange(mpos as int, (mpos + l) as int) =~= crate::mask::masked_bytes(
                data,
                key,
            ));
            crate::mask::lemma_mask_involution(data, key);
        },
        None => {
            assert(bytes.len() == pos + l);
            assert(bytes.subrange(pos as int, (pos + l) as int) =~= data);
        },
    }
}

/// A close frame built from a bare sendable status code is read back as a
/// close event carrying that code and an empty reason.
pub proof fn lemma_close_code_round_trip(code: u16)
    requires
        crate::sendable_close_code(code),
    ensures
        spec_close_event(u16_be_bytes(code as nat)) == (EventView::Close {
            code,
            reason: Seq::<char>::empty(),
        }),
{
    let msg = u16_be_bytes(code as nat);
    crate::frame::lemma_be16_round_trip(code as nat);
    assert(msg.skip(2) =~= Seq::<u8>::empty());
    assert(valid_utf8(msg.skip(2)));
    assert(decode_utf8(msg.skip(2)) =~= Seq::<char>::empty());
}

} // verus!

verus! {

/// Control round trip through the connection: a final control frame one
/// endpoint emits is read back by the peer in one step, in any state, and
/// leaves the fragmentation cursor exactly as it was, also in the middle of
/// a fragmented message. A ping or pong yields its payload; a close yields
/// the event its payload encodes.
#[verifier::rlimit(100)]
pub proof fn lemma_control_round_trip(
    role: Role,
    opcode: u8,
    mask: Option<Seq<u8>>,
    data: Seq<u8>,
    frag: Option<MessageType>,
    max: nat,
)
    requires
        opcode == 8 || opcode == 9 || opcode == 10,
        (role == Role::Server) == (mask is Some),
        mask matches Some(k) ==> k.len() == 4,
        data.len() <= 125,
    ensures
        ({
            let bytes = frame_bytes(true, opcode, mask, data);
            let event = if opcode == 8 {
                spec_close_event(data)
            } else if opcode == 9 {
                EventView::Ping(data)
            } else {
                EventView::Pong(data)
            };
            spec_recv(role, frag, max, bytes) == (RecvStep::Step {
                event,
                fragment: frag,
                used: bytes.len(),
            })
        }),
{
    let masked = mask is Some;
    let bytes = frame_bytes(true, opcode, mask, data);
    let lb = crate::frame::len_bytes(masked, data.len());
    assert(bytes[0] == crate::frame::first_byte(true, 0, opcode));
    assert(bytes[1] == lb[0]);
    crate::frame::lemma_first_byte_fields(true, opcode);
    let l = data.len();
    crate::frame::lemma_len_byte_fields(masked, l);

    assert(spec_recv(role, frag, max, bytes) == spec_recv_control(frag, bytes, opcode, masked, l));

    match mask {
        Some(key) => {
            assert(bytes.len() == 6 + l);
            assert(bytes.subrange(2, 6) =~= key);
            assert(bytes.subrange(6, 6 + l as int) =~= crate::mask::masked_bytes(data, key));
            crate::mask::lemma_mask_involution(data, key);
        },
        None => {
            assert(bytes.len() == 2 + l);
            assert(bytes.subrange(2, 2 + l as int) =~= data);
        },
    }
}

} // verus!
