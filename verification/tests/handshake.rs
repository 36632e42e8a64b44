//! Handshake hash tests: the Sec-WebSocket-Accept value and the
//! switching-protocols response around it.

use web_socket::handshake::{accept_key_from, response};
use web_socket::mask::Mask;

#[test]
fn accept_key_matches_rfc_example() {
    assert_eq!(
        accept_key_from(b"dGhlIHNhbXBsZSBub25jZQ=="),
        "s3pPLMBiTxaQ9kYGzzhZRbK+xOo="
    );
}

#[test]
fn switching_protocols_response() {
    let expected = [
        "HTTP/1.1 101 Switching Protocols",
        "Upgrade: websocket",
        "Connection: Upgrade",
        "Sec-WebSocket-Accept: s3pPLMBiTxaQ9kYGzzhZRbK+xOo=",
        "",
        "",
    ]
    .join("\r\n");
    assert_eq!(response(b"dGhlIHNhbXBsZSBub25jZQ==", ""), expected);
}

#[test]
fn response_carries_extra_headers() {
    let r = response(b"dGhlIHNhbXBsZSBub25jZQ==", "Server: test\r\n");
    assert!(r.ends_with("Server: test\r\n\r\n"));
    assert!(r.starts_with("HTTP/1.1 101 Switching Protocols\r\n"));
}

#[test]
fn mask_cursor_cycles_through_keys() {
    let mut m = Mask::new([1, 2, 3, 4]);
    assert_eq!(m.next_key(), 1);
    assert_eq!(m.next_key(), 2);
    assert_eq!(m.next_key(), 3);
    assert_eq!(m.next_key(), 4);
    assert_eq!(m.next_key(), 1);
    assert_eq!(m.keys, [1, 2, 3, 4]);
}
