//! The Sec-WebSocket-Accept hash of the opening handshake (RFC 6455
//! section 4.2.2): the only part of the HTTP handshake this crate computes.
//! Formatting and parsing the surrounding HTTP messages is the embedding's
//! job.

use vstd::prelude::*;

use vstd::slice::slice_to_vec;
use sha1::Digest;
use vstd::string::StringExecFns;

verus! {

/// The bytes of the fixed GUID "258EAFA5-E914-47DA-95CA-C5AB0DC85B11" that
/// RFC 6455 appends to the client's key before hashing.
pub const MAGIC: [u8; 36] = [
    50,
    53,
    56,
    69,
    65,
    70,
    65,
    53,
    45,
    69,
    57,
    49,
    52,
    45,
    52,
    55,
    68,
    65,
    45,
    57,
    53,
    67,
    65,
    45,
    67,
    53,
    65,
    66,
    48,
    68,
    67,
    56,
    53,
    66,
    49,
    49,
];

/// The 20-byte SHA-1 digest of a byte sequence, as the sha1 crate computes
/// it.
pub uninterp spec fn sha1_of(bytes: Seq<u8>) -> Seq<u8>;

/// Relies on sha1::Sha1 through the Digest trait: the SHA-1 digest of the
/// input, a function of the bytes alone, always 20 bytes long.
#[verifier::external_body]
fn sha1_digest(bytes: &Vec<u8>) -> (r: Vec<u8>)
    ensures
        r@ == sha1_of(bytes@),
        r@.len() == 20,
{
    sha1::Sha1::digest(bytes.as_slice()).to_vec()
}

/// The base64 encoding of a byte sequence under the standard alphabet with
/// padding, as base64::encode computes it.
pub uninterp spec fn base64_of(bytes: Seq<u8>) -> Seq<char>;

/// Relies on base64::encode: the standard-alphabet, padded encoding of the
/// input, a function of the bytes alone; four characters for every three
/// input bytes, rounded up. The length bound keeps the output size within
/// what the encoder can allocate.
#[verifier::external_body]
fn base64_encode(bytes: &Vec<u8>) -> (r: String)
    requires
        bytes@.len() <= 0xFFFFFF,
    ensures
        r@ == base64_of(bytes@),
        r@.len() == 4 * ((bytes@.len() + 2) / 3),
{
    base64::encode(bytes.as_slice())
}

/// The Sec-WebSocket-Accept value owed for a Sec-WebSocket-Key: the base64
/// encoding of the SHA-1 digest of the key followed by the fixed GUID.
pub open spec fn accept_key(sec_ws_key: Seq<u8>) -> Seq<char> {
    base64_of(sha1_of(sec_ws_key + MAGIC@))
}

/// Computes the Sec-WebSocket-Accept value for a Sec-WebSocket-Key. The
/// length bound keeps the hash input within what can be allocated; any real
/// key is 24 bytes.
pub fn accept_key_from(sec_ws_key: &[u8]) -> (r: String)
    requires
        sec_ws_key@.len() <= 0xFFFFFF,
    ensures
        r@ == accept_key(sec_ws_key@),
{
    let mut input: Vec<u8> = slice_to_vec(sec_ws_key);
    input.extend_from_slice(MAGIC.as_slice());
    assert(input@ =~= sec_ws_key@ + MAGIC@);
    let digest = sha1_digest(&input);
    base64_encode(&digest)
}

/// Formats the switching-protocols response for a handshake request that
/// carried the given Sec-WebSocket-Key. `headers` holds any extra header
/// lines, each already formatted as `name: value` and ending in `\r\n`.
pub fn response(sec_ws_key: &[u8], headers: &str) -> (r: String)
    requires
        sec_ws_key@.len() <= 0xFFFFFF,
    ensures
        r@ == "HTTP/1.1 101 Switching Protocols\r\nUpgrade: websocket\r\nConnection: Upgrade\r\nSec-WebSocket-Accept: "@
            + accept_key(sec_ws_key@) + "\r\n"@ + headers@ + "\r\n"@,
{
    let key = accept_key_from(sec_ws_key);
    let mut r = String::from_str(
        "HTTP/1.1 101 Switching Protocols\r\nUpgrade: websocket\r\nConnection: Upgrade\r\nSec-WebSocket-Accept: ",
    );
    r.append(key.as_str());
    r.append("\r\n");
    r.append(headers);
    r.append("\r\n");
    r
}

} // verus!
