//! The frame codec: the exact wire layout of a frame (RFC 6455 section 5.2)
//! as specification functions, a verified encoder, and a verified header
//! parser that is its inverse.

use vstd::prelude::*;

use crate::mask::{lemma_mask_involution, masked_bytes, write_masked};
use crate::{CLIENT, SERVER};
use vstd::string::{StrSliceExecFns, StringSliceAdditionalSpecFns};

verus! {

/// The first header byte: fin in bit 7, the reserved bits in bits 6-4
/// (`rsv` already holds them in place), the opcode in bits 3-0.
pub open spec fn first_byte(fin: bool, rsv: u8, opcode: u8) -> u8
    recommends
        rsv < 128,
        rsv % 16 == 0,
        opcode < 16,
{
    ((if fin {
        128int
    } else {
        0int
    }) + rsv + opcode) as u8
}

/// The value of a big-endian 16-bit extended length field.
pub open spec fn be16(b0: u8, b1: u8) -> nat {
    (b0 * 256 + b1) as nat
}

/// The value of a big-endian 64-bit extended length field.
pub open spec fn be64(b: Seq<u8>) -> nat
    recommends
        b.len() == 8,
{
    (b[0] * 0x100000000000000 + b[1] * 0x1000000000000 + b[2] * 0x10000000000 + b[3] * 0x100000000
        + b[4] * 0x1000000 + b[5] * 0x10000 + b[6] * 0x100 + b[7]) as nat
}

/// The two bytes of a big-endian 16-bit length.
pub open spec fn u16_be_bytes(n: nat) -> Seq<u8>
    recommends
        n < 0x10000,
{
    seq![(n / 256) as u8, (n % 256) as u8]
}

/// The eight bytes of a big-endian 64-bit length.
pub open spec fn u64_be_bytes(n: nat) -> Seq<u8>
    recommends
        n < 0x10000000000000000,
{
    seq![
        ((n / 0x100000000000000) % 256) as u8,
        ((n / 0x1000000000000) % 256) as u8,
        ((n / 0x10000000000) % 256) as u8,
        ((n / 0x100000000) % 256) as u8,
        ((n / 0x1000000) % 256) as u8,
        ((n / 0x10000) % 256) as u8,
        ((n / 0x100) % 256) as u8,
        (n % 256) as u8,
    ]
}

/// The second header byte and the extended length bytes, in the canonical
/// encoding: lengths below 126 stand in the second byte itself, lengths below
/// 65536 in a 16-bit extension, all others in a 64-bit extension.
pub open spec fn len_bytes(masked: bool, len: nat) -> Seq<u8>
    recommends
        len < 0x10000000000000000,
{
    let m: int = if masked {
        128int
    } else {
        0int
    };
    if len < 126 {
        seq![(m + len) as u8]
    } else if len < 65536 {
        seq![(m + 126) as u8] + u16_be_bytes(len)
    } else {
        seq![(m + 127) as u8] + u64_be_bytes(len)
    }
}

/// The header bytes of a frame, mask keys excluded: first byte, then the
/// length field in its canonical encoding.
pub open spec fn header_bytes(fin: bool, rsv: u8, opcode: u8, masked: bool, len: nat) -> Seq<u8> {
    seq![first_byte(fin, rsv, opcode)] + len_bytes(masked, len)
}

/// The complete wire image of a frame with zero reserved bits: header, then
/// the four mask keys and the masked payload when a mask is present, or the
/// payload verbatim when not.
pub open spec fn frame_bytes(fin: bool, opcode: u8, mask: Option<Seq<u8>>, data: Seq<u8>) -> Seq<
    u8,
>
    recommends
        opcode < 16,
        data.len() < 0x10000000000000000,
        mask matches Some(k) ==> k.len() == 4,
{
    match mask {
        None => header_bytes(fin, 0, opcode, false, data.len()) + data,
        Some(key) => header_bytes(fin, 0, opcode, true, data.len()) + key + masked_bytes(
            data,
            key,
        ),
    }
}

/// Holds when `bytes` is the wire image of the given frame under some 4-byte
/// mask: the shape of every frame a client emits, whatever key was drawn.
pub open spec fn client_frame(bytes: Seq<u8>, fin: bool, opcode: u8, data: Seq<u8>) -> bool {
    exists|key: Seq<u8>| key.len() == 4 && bytes == frame_bytes(fin, opcode, Some(key), data)
}

/// Relies on fastrand::u32 for the four mask key bytes of a client frame.
/// The value is pseudorandom; nothing is assumed of it.
#[verifier::external_body]
fn random_mask() -> [u8; 4] {
    fastrand::u32(..).to_ne_bytes()
}

/// Appends the canonical length field to `writer`: the second header byte
/// holding the mask bit, then 0, 2 or 8 extended length bytes.
fn encode_len(writer: &mut Vec<u8>, masked: bool, len: u64)
    ensures
        final(writer)@ == old(writer)@ + len_bytes(masked, len as nat),
{
    let m: u8 = if masked {
        128
    } else {
        0
    };
    if len < 126 {
        writer.push(m + (len as u8));
        assert(writer@ =~= old(writer)@ + len_bytes(masked, len as nat));
    } else if len < 65536 {
        writer.push(m + 126);
        writer.push((len / 256) as u8);
        writer.push((len % 256) as u8);
        assert(writer@ =~= old(writer)@ + len_bytes(masked, len as nat));
    } else {
        writer.push(m + 127);
        writer.push(((len / 0x100000000000000) % 256) as u8);
        writer.push(((len / 0x1000000000000) % 256) as u8);
        writer.push(((len / 0x10000000000) % 256) as u8);
        writer.push(((len / 0x100000000) % 256) as u8);
        writer.push(((len / 0x1000000) % 256) as u8);
        writer.push(((len / 0x10000) % 256) as u8);
        writer.push(((len / 0x100) % 256) as u8);
        writer.push((len % 256) as u8);
        assert(writer@ =~= old(writer)@ + len_bytes(masked, len as nat));
    }
}

/// Appends the header of a frame with zero reserved bits to `writer`:
/// first byte, then the canonical length field. Mask keys are not written.
pub fn encode_header(writer: &mut Vec<u8>, fin: bool, opcode: u8, masked: bool, len: usize)
    requires
        opcode < 16,
    ensures
        final(writer)@ == old(writer)@ + header_bytes(fin, 0, opcode, masked, len as nat),
{
    let b1: u8 = if fin {
        128 + opcode
    } else {
        opcode
    };
    writer.push(b1);
    encode_len(writer, masked, len as u64);
    assert(writer@ =~= old(writer)@ + header_bytes(fin, 0, opcode, masked, len as nat));
}

/// Appends one complete frame to `writer`: unmasked for the server side,
/// masked under a freshly drawn key for the client side.
pub fn encode<const SIDE: bool>(writer: &mut Vec<u8>, fin: bool, opcode: u8, data: &[u8])
    requires
        opcode < 16,
    ensures
        SIDE == SERVER ==> final(writer)@ == old(writer)@ + frame_bytes(fin, opcode, None, data@),
        SIDE == CLIENT ==> exists|key: Seq<u8>|
            key.len() == 4 && final(writer)@ == old(writer)@ + frame_bytes(
                fin,
                opcode,
                Some(key),
                data@,
            ),
{
    if SIDE == SERVER {
        encode_header(writer, fin, opcode, false, data.len());
        writer.extend_from_slice(data);
        assert(writer@ =~= old(writer)@ + frame_bytes(fin, opcode, None, data@));
    } else {
        let key = random_mask();
        encode_header(writer, fin, opcode, true, data.len());
        writer.push(key[0]);
        writer.push(key[1]);
        writer.push(key[2]);
        writer.push(key[3]);
        write_masked(writer, data, key);
        assert(writer@ =~= old(writer)@ + frame_bytes(fin, opcode, Some(key@), data@)) by {
            assert(key@ =~= seq![key@[0], key@[1], key@[2], key@[3]]);
        }
    }
}

/// One frame as the caller hands it to the send side: the fin flag, the raw
/// 4-bit opcode, and the unmasked payload.
#[derive(Debug, PartialEq, Eq)]
pub struct Frame {
    /// Whether this frame is the final fragment of its message.
    pub fin: bool,
    /// The 4-bit opcode.
    pub opcode: u8,
    /// The unmasked payload bytes.
    pub data: Vec<u8>,
}

impl Frame {
    /// A frame is well formed when its opcode fits in four bits.
    pub open spec fn wf(&self) -> bool {
        self.opcode < 16
    }

    /// A single unfragmented text frame carrying the bytes of `s`.
    pub fn text(s: &str) -> (f: Frame)
        ensures
            f.fin,
            f.opcode == 1,
            f.data@ == s.spec_bytes(),
            f.wf(),
    {
        let data = s.as_bytes_vec();
        Frame { fin: true, opcode: 1, data }
    }

    /// A single unfragmented binary frame carrying `data`.
    pub fn binary(data: Vec<u8>) -> (f: Frame)
        ensures
            f.fin,
            f.opcode == 2,
            f.data == data,
            f.wf(),
    {
        Frame { fin: true, opcode: 2, data }
    }

    /// The wire image of this frame without a mask, as a server emits it.
    pub fn encode_without_mask(&self) -> (out: Vec<u8>)
        requires
            self.wf(),
        ensures
            out@ == frame_bytes(self.fin, self.opcode, None, self.data@),
    {
        let mut out: Vec<u8> = Vec::new();
        encode_header(&mut out, self.fin, self.opcode, false, self.data.len());
        out.extend_from_slice(self.data.as_slice());
        assert(out@ =~= frame_bytes(self.fin, self.opcode, None, self.data@));
        out
    }

    /// The wire image of this frame masked under the given key.
    pub fn encode_with(&self, mask: [u8; 4]) -> (out: Vec<u8>)
        requires
            self.wf(),
        ensures
            out@ == frame_bytes(self.fin, self.opcode, Some(mask@), self.data@),
    {
        let mut out: Vec<u8> = Vec::new();
        encode_header(&mut out, self.fin, self.opcode, true, self.data.len());
        out.push(mask[0]);
        out.push(mask[1]);
        out.push(mask[2]);
        out.push(mask[3]);
        write_masked(&mut out, self.data.as_slice(), mask);
        assert(out@ =~= frame_bytes(self.fin, self.opcode, Some(mask@), self.data@)) by {
            assert(mask@ =~= seq![mask@[0], mask@[1], mask@[2], mask@[3]]);
        }
        out
    }

    /// The wire image of this frame masked under a freshly drawn key, as a
    /// client emits it.
    pub fn encode_with_mask(&self) -> (out: Vec<u8>)
        requires
            self.wf(),
        ensures
            client_frame(out@, self.fin, self.opcode, self.data@),
    {
        let mask = random_mask();
        self.encode_with(mask)
    }
}


/// Defines the interpretation of the payload. Opcodes 3-7 and 11-15 are
/// reserved and rejected on receive.
#[derive(Debug, Clone, Copy, PartialEq, Eq, Structural)]
pub enum Opcode {
    /// A continuation frame of a fragmented message.
    Continue,
    /// A text data frame.
    Text,
    /// A binary data frame.
    Binary,
    /// A close control frame.
    Close,
    /// A ping control frame.
    Ping,
    /// A pong control frame.
    Pong,
}

impl Opcode {
    /// The 4-bit value of an opcode on the wire.
    pub open spec fn as_u8_spec(self) -> u8 {
        match self {
            Opcode::Continue => 0,
            Opcode::Text => 1,
            Opcode::Binary => 2,
            Opcode::Close => 8,
            Opcode::Ping => 9,
            Opcode::Pong => 10,
        }
    }

    /// The 4-bit value of an opcode on the wire.
    pub fn as_u8(self) -> (r: u8)
        ensures
            r == self.as_u8_spec(),
    {
        match self {
            Opcode::Continue => 0,
            Opcode::Text => 1,
            Opcode::Binary => 2,
            Opcode::Close => 8,
            Opcode::Ping => 9,
            Opcode::Pong => 10,
        }
    }

    /// The opcode denoted by a 4-bit value, or nothing for a reserved value.
    pub open spec fn from_u8_spec(value: u8) -> Option<Opcode> {
        if value == 0 {
            Some(Opcode::Continue)
        } else if value == 1 {
            Some(Opcode::Text)
        } else if value == 2 {
            Some(Opcode::Binary)
        } else if value == 8 {
            Some(Opcode::Close)
        } else if value == 9 {
            Some(Opcode::Ping)
        } else if value == 10 {
            Some(Opcode::Pong)
        } else {
            None
        }
    }

    /// The opcode denoted by a 4-bit value, or `None` for a reserved value.
    pub fn from_u8(value: u8) -> (r: Option<Opcode>)
        ensures
            r == Opcode::from_u8_spec(value),
    {
        match value {
            0 => Some(Opcode::Continue),
            1 => Some(Opcode::Text),
            2 => Some(Opcode::Binary),
            8 => Some(Opcode::Close),
            9 => Some(Opcode::Ping),
            10 => Some(Opcode::Pong),
            _ => None,
        }
    }

    /// Whether the opcode marks a control frame (close, ping or pong).
    pub fn is_control(self) -> (r: bool)
        ensures
            r == (self.as_u8_spec() >= 8),
    {
        matches!(self, Opcode::Close | Opcode::Ping | Opcode::Pong)
    }
}

/// The three reserved header bits, held in place: bit 6 is RSV1, bit 5 is
/// RSV2, bit 4 is RSV3, all other bits are zero. They must all be zero
/// unless an extension was negotiated; this crate negotiates none.
#[derive(Debug, Clone, Copy, PartialEq, Eq, Structural, Default)]
pub struct Rsv(pub u8);

impl Rsv {
    /// A value is well formed when only bits 6-4 can be set.
    pub open spec fn wf(&self) -> bool {
        self.0 < 128 && self.0 % 16 == 0
    }

    /// The first reserved bit.
    pub fn rsv1(&self) -> (r: bool)
        ensures
            r == ((self.0 / 64) % 2 == 1),
    {
        (self.0 / 64) % 2 == 1
    }

    /// The second reserved bit.
    pub fn rsv2(&self) -> (r: bool)
        ensures
            r == ((self.0 / 32) % 2 == 1),
    {
        (self.0 / 32) % 2 == 1
    }

    /// The third reserved bit.
    pub fn rsv3(&self) -> (r: bool)
        ensures
            r == ((self.0 / 16) % 2 == 1),
    {
        (self.0 / 16) % 2 == 1
    }
}

/// A parsed frame header: every field read from the wire before the payload.
#[derive(Debug, Clone, Copy, PartialEq, Eq)]
pub struct Header {
    /// Whether this frame is the final fragment of its message.
    pub fin: bool,
    /// The reserved bits, in place.
    pub rsv: Rsv,
    /// The opcode.
    pub opcode: Opcode,
    /// The payload length in bytes, as wide as the 64-bit length field.
    pub len: u64,
    /// The mask keys, present exactly when the mask bit was set.
    pub mask: Option<[u8; 4]>,
}

/// The fields of a header at the specification level, together with the
/// number of bytes the header occupies on the wire.
pub struct ParsedHeader {
    /// Whether this frame is the final fragment of its message.
    pub fin: bool,
    /// The reserved bits, in place.
    pub rsv: u8,
    /// The opcode.
    pub opcode: Opcode,
    /// Whether a mask is present.
    pub masked: bool,
    /// The four mask key bytes, empty when no mask is present.
    pub mask: Seq<u8>,
    /// The payload length in bytes.
    pub len: nat,
    /// The number of header bytes, mask keys included; the payload follows.
    pub size: nat,
}

/// The outcome of reading a frame header from a byte sequence.
pub enum HeaderParse {
    /// The sequence is a proper prefix of a frame header.
    Incomplete,
    /// The opcode value is one of the reserved values 3-7 or 11-15.
    UnknownOpcode,
    /// A control frame is fragmented or longer than 125 bytes.
    BadControlFrame,
    /// A complete header with its parsed fields.
    Parsed(ParsedHeader),
}

/// Reads a frame header from the start of `bytes`: the first byte, the
/// length field, and the mask keys when the mask bit is set. Control frames
/// must be final and at most 125 bytes long and never carry an extended
/// length field.
pub open spec fn spec_parse_header(bytes: Seq<u8>) -> HeaderParse {
    if bytes.len() < 2 {
        HeaderParse::Incomplete
    } else {
        let b1 = bytes[0];
        let b2 = bytes[1];
        let fin = b1 >= 128;
        let rsv = (((b1 / 16) % 8) * 16) as u8;
        match Opcode::from_u8_spec((b1 % 16) as u8) {
            None => HeaderParse::UnknownOpcode,
            Some(opcode) => {
                let masked = b2 >= 128;
                let short = b2 % 128;
                if opcode.as_u8_spec() >= 8 {
                    if !fin || short > 125 {
                        HeaderParse::BadControlFrame
                    } else {
                        spec_parse_mask(bytes, fin, rsv, opcode, masked, short as nat, 2)
                    }
                } else if short == 126 {
                    if bytes.len() < 4 {
                        HeaderParse::Incomplete
                    } else {
                        spec_parse_mask(bytes, fin, rsv, opcode, masked, be16(bytes[2], bytes[3]), 4)
                    }
                } else if short == 127 {
                    if bytes.len() < 10 {
                        HeaderParse::Incomplete
                    } else {
                        spec_parse_mask(bytes, fin, rsv, opcode, masked, be64(bytes.subrange(2, 10)), 10)
                    }
                } else {
                    spec_parse_mask(bytes, fin, rsv, opcode, masked, short as nat, 2)
                }
            },
        }
    }
}

/// Reads the mask keys, if any, standing at offset `pos` of `bytes`, and
/// assembles the parsed header.
pub open spec fn spec_parse_mask(
    bytes: Seq<u8>,
    fin: bool,
    rsv: u8,
    opcode: Opcode,
    masked: bool,
    len: nat,
    pos: nat,
) -> HeaderParse {
    if masked {
        if bytes.len() < pos + 4 {
            HeaderParse::Incomplete
        } else {
            HeaderParse::Parsed(
                ParsedHeader {
                    fin,
                    rsv,
                    opcode,
                    masked,
                    mask: bytes.subrange(pos as int, pos as int + 4),
                    len,
                    size: pos + 4,
                },
            )
        }
    } else {
        HeaderParse::Parsed(
            ParsedHeader { fin, rsv, opcode, masked, mask: Seq::empty(), len, size: pos },
        )
    }
}


/// Why a header could not be parsed.
#[derive(Debug, Clone, Copy, PartialEq, Eq, Structural)]
pub enum ParseError {
    /// The input ends before the header does; more bytes are needed.
    Incomplete,
    /// The opcode value is one of the reserved values 3-7 or 11-15.
    UnknownOpcode,
    /// A control frame is fragmented or longer than 125 bytes.
    BadControlFrame,
}

impl ParseError {
    /// The error described in words.
    pub fn message(&self) -> (r: &'static str)
        ensures
            *self == ParseError::Incomplete ==> r@ == "unexpected end of input"@,
            *self == ParseError::UnknownOpcode ==> r@ == "unknown opcode"@,
            *self == ParseError::BadControlFrame ==> r@
                == "control frame must be final and at most 125 bytes"@,
    {
        match self {
            ParseError::Incomplete => "unexpected end of input",
            ParseError::UnknownOpcode => "unknown opcode",
            ParseError::BadControlFrame => "control frame must be final and at most 125 bytes",
        }
    }
}

impl Header {
    /// The specification-level image of this header, occupying `size` bytes
    /// on the wire.
    pub open spec fn parsed(&self, size: nat) -> ParsedHeader {
        ParsedHeader {
            fin: self.fin,
            rsv: self.rsv.0,
            opcode: self.opcode,
            masked: self.mask is Some,
            mask: match self.mask {
                Some(k) => k@,
                None => Seq::empty(),
            },
            len: self.len as nat,
            size,
        }
    }

    /// The bytes this header occupies on the wire: first byte, canonical
    /// length field, then the mask keys when a mask is present.
    pub open spec fn wire_bytes(&self) -> Seq<u8> {
        header_bytes(
            self.fin,
            self.rsv.0,
            self.opcode.as_u8_spec(),
            self.mask is Some,
            self.len as nat,
        ) + match self.mask {
            Some(k) => k@,
            None => Seq::empty(),
        }
    }

    /// Serializes this header, choosing the shortest valid length encoding.
    pub fn encode(&self) -> (out: Vec<u8>)
        requires
            self.rsv.wf(),
        ensures
            out@ == self.wire_bytes(),
    {
        let mut out: Vec<u8> = Vec::new();
        let b1: u8 = if self.fin {
            128 + self.rsv.0 + self.opcode.as_u8()
        } else {
            self.rsv.0 + self.opcode.as_u8()
        };
        out.push(b1);
        encode_len(&mut out, self.mask.is_some(), self.len);
        match self.mask {
            Some(keys) => {
                out.push(keys[0]);
                out.push(keys[1]);
                out.push(keys[2]);
                out.push(keys[3]);
                assert(out@ =~= self.wire_bytes()) by {
                    assert(keys@ =~= seq![keys@[0], keys@[1], keys@[2], keys@[3]]);
                }
            },
            None => {
                assert(out@ =~= self.wire_bytes());
            },
        }
        out
    }

    /// Reads a header from the start of `bytes`, returning it together with
    /// the number of bytes it occupies; the payload follows at that offset.
    pub fn parse(bytes: &[u8]) -> (r: Result<(Header, usize), ParseError>)
        ensures
            match r {
                Ok((h, n)) => spec_parse_header(bytes@) == HeaderParse::Parsed(h.parsed(n as nat)),
                Err(ParseError::Incomplete) => spec_parse_header(bytes@) is Incomplete,
                Err(ParseError::UnknownOpcode) => spec_parse_header(bytes@) is UnknownOpcode,
                Err(ParseError::BadControlFrame) => spec_parse_header(bytes@) is BadControlFrame,
            },
    {
        if bytes.len() < 2 {
            return Err(ParseError::Incomplete);
        }
        let b1 = bytes[0];
        let b2 = bytes[1];
        let fin = b1 >= 128;
        let rsv = Rsv(b1 / 16 % 8 * 16);
        let opcode = match Opcode::from_u8(b1 % 16) {
            Some(op) => op,
            None => {
                return Err(ParseError::UnknownOpcode);
            },
        };
        let masked = b2 >= 128;
        let short = b2 % 128;
        let len: u64;
        let pos: usize;
        if opcode.is_control() {
            if !fin || short > 125 {
                return Err(ParseError::BadControlFrame);
            }
            len = short as u64;
            pos = 2;
        } else if short == 126 {
            if bytes.len() < 4 {
                return Err(ParseError::Incomplete);
            }
            len = (bytes[2] as u64) * 256 + (bytes[3] as u64);
            pos = 4;
        } else if short == 127 {
            if bytes.len() < 10 {
                return Err(ParseError::Incomplete);
            }
            let n: u64 = (bytes[2] as u64) * 0x100000000000000 + (bytes[3] as u64)
                * 0x1000000000000 + (bytes[4] as u64) * 0x10000000000 + (bytes[5] as u64)
                * 0x100000000 + (bytes[6] as u64) * 0x1000000 + (bytes[7] as u64) * 0x10000 + (
            bytes[8] as u64) * 0x100 + (bytes[9] as u64);
            assert(bytes@.subrange(2, 10) =~= seq![
                bytes@[2],
                bytes@[3],
                bytes@[4],
                bytes@[5],
                bytes@[6],
                bytes@[7],
                bytes@[8],
                bytes@[9],
            ]);
            len = n;
            pos = 10;
        } else {
            len = short as u64;
            pos = 2;
        }
        let mask: Option<[u8; 4]>;
        let size: usize;
        if masked {
            if bytes.len() < pos + 4 {
                return Err(ParseError::Incomplete);
            }
            let keys = [bytes[pos], bytes[pos + 1], bytes[pos + 2], bytes[pos + 3]];
            assert(keys@ =~= bytes@.subrange(pos as int, pos as int + 4));
            mask = Some(keys);
            size = pos + 4;
        } else {
            mask = None;
            size = pos;
        }
        let header = Header { fin, rsv, opcode, len, mask };
        Ok((header, size))
    }
}


/// Decodes one complete frame standing at the start of `bytes`: its header,
/// then `len` payload bytes, unmasked when a mask is present. The result
/// holds the fin flag, the opcode, the unmasked payload, and the total
/// number of bytes the frame occupies.
pub open spec fn spec_decode_frame(bytes: Seq<u8>) -> Option<(bool, Opcode, Seq<u8>, nat)> {
    match spec_parse_header(bytes) {
        HeaderParse::Parsed(ph) => {
            if ph.size + ph.len <= bytes.len() {
                let raw = bytes.subrange(ph.size as int, (ph.size + ph.len) as int);
                Some(
                    (
                        ph.fin,
                        ph.opcode,
                        if ph.masked {
                            masked_bytes(raw, ph.mask)
                        } else {
                            raw
                        },
                        ph.size + ph.len,
                    ),
                )
            } else {
                None
            }
        },
        _ => None,
    }
}

/// The length encoding is canonical: a length below 126 stands in the second
/// header byte alone, a length below 65536 never uses the 64-bit form.
pub proof fn lemma_canonical_length(masked: bool, len: nat)
    requires
        len < 0x10000000000000000,
    ensures
        len < 126 ==> len_bytes(masked, len).len() == 1,
        126 <= len < 65536 ==> len_bytes(masked, len).len() == 3,
        65536 <= len ==> len_bytes(masked, len).len() == 9,
{
}

/// Every frame emitted with a mask carries the mask-present bit, the four
/// key bytes right before the payload, and a payload that unmasking with
/// those key bytes turns back into the caller's input.
pub proof fn lemma_client_frame_masking(fin: bool, opcode: u8, key: Seq<u8>, data: Seq<u8>)
    requires
        opcode < 16,
        key.len() == 4,
        data.len() < 0x10000000000000000,
    ensures
        ({
            let bytes = frame_bytes(fin, opcode, Some(key), data);
            let hl = 1 + len_bytes(true, data.len()).len();
            &&& bytes[1] >= 128
            &&& bytes.subrange(hl as int, hl as int + 4) == key
            &&& masked_bytes(bytes.skip(hl as int + 4), key) == data
        }),
{
    let bytes = frame_bytes(fin, opcode, Some(key), data);
    let lb = len_bytes(true, data.len());
    let hl = 1 + lb.len();
    assert(bytes[1] == lb[0]);
    assert(lb[0] >= 128);
    assert(bytes.subrange(hl as int, hl as int + 4) =~= key);
    assert(bytes.skip(hl as int + 4) =~= masked_bytes(data, key));
    lemma_mask_involution(data, key);
}

/// Every frame emitted without a mask has the mask-present bit clear and
/// carries the caller's payload byte for byte.
pub proof fn lemma_server_frame_payload(fin: bool, opcode: u8, data: Seq<u8>)
    requires
        opcode < 16,
        data.len() < 0x10000000000000000,
    ensures
        ({
            let bytes = frame_bytes(fin, opcode, None, data);
            let hl = 1 + len_bytes(false, data.len()).len();
            &&& bytes[1] < 128
            &&& bytes.skip(hl as int) == data
        }),
{
    let bytes = frame_bytes(fin, opcode, None, data);
    let lb = len_bytes(false, data.len());
    let hl = 1 + lb.len();
    assert(bytes[1] == lb[0]);
    assert(lb[0] < 128);
    assert(bytes.skip(hl as int) =~= data);
}

/// Every control frame the library emits is final and short: its first byte
/// carries the fin bit and its whole length stands in the second byte.
pub proof fn lemma_control_frame_header(
    fin: bool,
    opcode: u8,
    mask: Option<Seq<u8>>,
    data: Seq<u8>,
)
    requires
        8 <= opcode < 16,
        fin,
        data.len() <= 125,
        mask matches Some(k) ==> k.len() == 4,
    ensures
        frame_bytes(fin, opcode, mask, data)[0] >= 128,
        frame_bytes(fin, opcode, mask, data)[1] % 128 == data.len(),
{
    let bytes = frame_bytes(fin, opcode, mask, data);
    let masked = mask is Some;
    let lb = len_bytes(masked, data.len());
    assert(bytes[0] == first_byte(fin, 0, opcode));
    assert(bytes[1] == lb[0]);
    let m: int = if masked {
        128int
    } else {
        0int
    };
    let l = data.len();
    assert(((m + l) as u8) % 128 == l) by {
        vstd::arithmetic::div_mod::lemma_mod_multiples_vanish(if masked { 1int } else { 0int }, l as int, 128);
        vstd::arithmetic::div_mod::lemma_small_mod(l, 128);
    }
}


/// Reassembling the eight big-endian bytes of a 64-bit length gives the
/// length back.
pub(crate) proof fn lemma_be64_round_trip(len: nat)
    requires
        len < 0x10000000000000000,
    ensures
        be64(u64_be_bytes(len)) == len,
{
    let n = len as u64;
    assert(((n / 0x100000000000000) % 256) * 0x100000000000000 + ((n / 0x1000000000000) % 256)
        * 0x1000000000000 + ((n / 0x10000000000) % 256) * 0x10000000000 + ((n / 0x100000000) % 256)
        * 0x100000000 + ((n / 0x1000000) % 256) * 0x1000000 + ((n / 0x10000) % 256) * 0x10000 + ((
    n / 0x100) % 256) * 0x100 + (n % 256) == n) by (bit_vector);
}

/// Reassembling the two big-endian bytes of a 16-bit length gives the
/// length back.
pub(crate) proof fn lemma_be16_round_trip(len: nat)
    requires
        len < 0x10000,
    ensures
        be16(u16_be_bytes(len)[0], u16_be_bytes(len)[1]) == len,
{
    vstd::arithmetic::div_mod::lemma_fundamental_div_mod(len as int, 256);
}

/// Splitting the first header byte back into its fields gives the fin flag,
/// zero reserved bits, and the opcode that built it.
pub(crate) proof fn lemma_first_byte_fields(fin: bool, opcode: u8)
    requires
        opcode < 16,
    ensures
        (first_byte(fin, 0, opcode) >= 128) == fin,
        (first_byte(fin, 0, opcode) / 16) % 8 * 16 == 0,
        first_byte(fin, 0, opcode) % 16 == opcode,
{
    let b = first_byte(fin, 0, opcode);
    let op = opcode;
    if fin {
        assert(b == 128 + op);
        assert((b == 128 + op && op < 16) ==> (b >= 128 && (b / 16) % 8 == 0 && b % 16 == op))
            by (bit_vector);
    } else {
        assert(b == op);
        assert(op < 16 ==> (op < 128 && (op / 16) % 8 == 0 && op % 16 == op)) by (bit_vector);
    }
}

/// Splitting the second header byte back into its fields gives the mask bit
/// and the short length that built it.
pub(crate) proof fn lemma_len_byte_fields(masked: bool, v: nat)
    requires
        v < 128,
    ensures
        ({
            let b = ((if masked {
                128int
            } else {
                0int
            }) + v) as u8;
            &&& (b >= 128) == masked
            &&& b % 128 == v
        }),
{
    if masked {
        vstd::arithmetic::div_mod::lemma_mod_multiples_vanish(1, v as int, 128);
    }
    vstd::arithmetic::div_mod::lemma_small_mod(v, 128);
}

/// Parsing the wire image of a well-formed frame reads back exactly the
/// header fields that built it.
proof fn lemma_parse_of_frame_bytes(fin: bool, opcode: Opcode, mask: Option<Seq<u8>>, data: Seq<u8>)
    requires
        mask matches Some(k) ==> k.len() == 4,
        opcode.as_u8_spec() >= 8 ==> fin && data.len() <= 125,
        data.len() < 0x10000000000000000,
    ensures
        ({
            let masked = mask is Some;
            let hl = 1 + len_bytes(masked, data.len()).len();
            spec_parse_header(frame_bytes(fin, opcode.as_u8_spec(), mask, data))
                == HeaderParse::Parsed(
                ParsedHeader {
                    fin,
                    rsv: 0,
                    opcode,
                    masked,
                    mask: match mask {
                        Some(k) => k,
                        None => Seq::empty(),
                    },
                    len: data.len(),
                    size: hl + if masked {
                        4nat
                    } else {
                        0nat
                    },
                },
            )
        }),
{
    let op = opcode.as_u8_spec();
    let masked = mask is Some;
    let bytes = frame_bytes(fin, op, mask, data);
    let lb = len_bytes(masked, data.len());
    let hl = 1 + lb.len();
    assert(bytes[0] == first_byte(fin, 0, op));
    assert(bytes[1] == lb[0]);
    lemma_first_byte_fields(fin, op);
    assert(Opcode::from_u8_spec(op) == Some(opcode));

    let l = data.len();
    if l < 126 {
        lemma_len_byte_fields(masked, l);
    } else if l < 65536 {
        lemma_len_byte_fields(masked, 126);
        lemma_be16_round_trip(l);
        assert(bytes[2] == u16_be_bytes(l)[0]);
        assert(bytes[3] == u16_be_bytes(l)[1]);
    } else {
        lemma_len_byte_fields(masked, 127);
        lemma_be64_round_trip(l);
        assert(bytes.subrange(2, 10) =~= u64_be_bytes(l));
    }

    match mask {
        Some(key) => {
            assert(bytes.len() == hl + 4 + l);
            assert(bytes.subrange(hl as int, hl as int + 4) =~= key);
        },
        None => {
            assert(bytes.len() == hl + l);
        },
    }
}

/// Round trip: decoding the wire image of any well-formed frame gives back
/// exactly its fin flag, opcode and payload, and consumes the whole image.
/// Well-formed means the opcode is a known one, control frames are final and
/// at most 125 bytes long, and a mask, when present, has four bytes.
pub proof fn lemma_frame_round_trip(fin: bool, opcode: Opcode, mask: Option<Seq<u8>>, data: Seq<u8>)
    requires
        mask matches Some(k) ==> k.len() == 4,
        opcode.as_u8_spec() >= 8 ==> fin && data.len() <= 125,
        data.len() < 0x10000000000000000,
    ensures
        ({
            let bytes = frame_bytes(fin, opcode.as_u8_spec(), mask, data);
            spec_decode_frame(bytes) == Some((fin, opcode, data, bytes.len()))
        }),
{
    let op = opcode.as_u8_spec();
    let masked = mask is Some;
    let bytes = frame_bytes(fin, op, mask, data);
    let lb = len_bytes(masked, data.len());
    let hl = 1 + lb.len();
    let l = data.len();
    lemma_parse_of_frame_bytes(fin, opcode, mask, data);
    match mask {
        Some(key) => {
            let size = hl + 4;
            assert(bytes.len() == size + l);
            assert(bytes.subrange(size as int, (size + l) as int) =~= masked_bytes(data, key));
            lemma_mask_involution(data, key);
        },
        None => {
            assert(bytes.len() == hl + l);
            assert(bytes.subrange(hl as int, (hl + l) as int) =~= data);
        },
    }
}

} // verus!
