//! Connection state machine tests: the event stream, fragmentation
//! tracking, role masking rules, and the closed state.

use web_socket::ws::{RecvError, SendError, WebSocket};
use web_socket::{CloseCode, DataType, Event, Frame, MessageType, Role, Stream};

fn recv(ws: &mut WebSocket, bytes: &[u8]) -> (Event, usize) {
    ws.recv(bytes).expect("an event")
}

#[test]
fn unmasked_text_hello() {
    // An unmasked frame arrives from a server, so the receiver is a client.
    let mut ws = WebSocket::client();
    let (ev, used) = recv(&mut ws, &[0x81, 0x05, 0x48, 0x65, 0x6c, 0x6c, 0x6f]);
    match ev {
        Event::Data { ty, data } => {
            assert!(matches!(ty, DataType::Complete(MessageType::Text)));
            assert_eq!(data, b"Hello");
        }
        other => panic!("expected a data event, got {other:?}"),
    }
    assert_eq!(used, 7);
    assert_eq!(ws.fragment, None);
    assert!(!ws.is_closed);
}

#[test]
fn masked_text_hello_on_server() {
    let mut ws = WebSocket::server();
    let (ev, used) = recv(
        &mut ws,
        &[0x81, 0x85, 0x37, 0xfa, 0x21, 0x3d, 0x7f, 0x9f, 0x4d, 0x51, 0x58],
    );
    match ev {
        Event::Data { ty, data } => {
            assert!(matches!(ty, DataType::Complete(MessageType::Text)));
            assert_eq!(data, b"Hello");
        }
        other => panic!("expected a data event, got {other:?}"),
    }
    assert_eq!(used, 11);
}

#[test]
fn fragmented_text_hel_lo() {
    let mut ws = WebSocket::client();
    let (ev, _) = recv(&mut ws, &[0x01, 0x03, 0x48, 0x65, 0x6c]);
    match ev {
        Event::Data { ty, data } => {
            assert!(matches!(ty, DataType::Stream(Stream::Start(MessageType::Text))));
            assert_eq!(data, b"Hel");
        }
        other => panic!("expected a data event, got {other:?}"),
    }
    assert_eq!(ws.fragment, Some(MessageType::Text));

    let (ev, _) = recv(&mut ws, &[0x80, 0x02, 0x6c, 0x6f]);
    match ev {
        Event::Data { ty, data } => {
            assert!(matches!(ty, DataType::Stream(Stream::End(MessageType::Text))));
            assert_eq!(data, b"lo");
        }
        other => panic!("expected a data event, got {other:?}"),
    }
    assert_eq!(ws.fragment, None);
}

#[test]
fn ping_mid_fragment_keeps_cursor() {
    let mut ws = WebSocket::client();
    let (_, _) = recv(&mut ws, &[0x01, 0x03, 0x48, 0x65, 0x6c]);
    assert_eq!(ws.fragment, Some(MessageType::Text));

    let (ev, used) = recv(&mut ws, &[0x89, 0x05, 0x48, 0x65, 0x6c, 0x6c, 0x6f]);
    match ev {
        Event::Ping(data) => assert_eq!(data, b"Hello"),
        other => panic!("expected a ping, got {other:?}"),
    }
    assert_eq!(used, 7);
    assert_eq!(ws.fragment, Some(MessageType::Text));
}

#[test]
fn close_code_1000_no_reason() {
    let mut ws = WebSocket::client();
    let (ev, used) = recv(&mut ws, &[0x88, 0x02, 0x03, 0xe8]);
    match ev {
        Event::Close { code, reason } => {
            assert_eq!(code, 1000);
            assert_eq!(reason, "");
        }
        other => panic!("expected a close event, got {other:?}"),
    }
    assert_eq!(used, 4);
    assert!(ws.is_closed);
    assert_eq!(ws.recv(&[0x81, 0x00]), Err(RecvError::Closed));
}

#[test]
fn close_with_reason_text() {
    let mut ws = WebSocket::client();
    // code 1001, reason "bye"
    let (ev, _) = recv(&mut ws, &[0x88, 0x05, 0x03, 0xe9, b'b', b'y', b'e']);
    match ev {
        Event::Close { code, reason } => {
            assert_eq!(code, 1001);
            assert_eq!(reason, "bye");
        }
        other => panic!("expected a close event, got {other:?}"),
    }
}

#[test]
fn close_payload_without_code_defaults_to_1000() {
    let mut ws = WebSocket::client();
    let (ev, _) = recv(&mut ws, &[0x88, 0x00]);
    match ev {
        Event::Close { code, reason } => {
            assert_eq!(code, 1000);
            assert_eq!(reason, "");
        }
        other => panic!("expected a close event, got {other:?}"),
    }
}

#[test]
fn invalid_close_code_is_an_error() {
    let mut ws = WebSocket::client();
    // 0x03e6 == 998, outside the receivable set
    let (ev, _) = recv(&mut ws, &[0x88, 0x02, 0x03, 0xe6]);
    assert_eq!(ev, Event::Error("invalid close code"));
    assert!(ws.is_closed);
}

#[test]
fn invalid_utf8_close_reason_is_an_error() {
    let mut ws = WebSocket::client();
    let (ev, _) = recv(&mut ws, &[0x88, 0x04, 0x03, 0xe8, 0xff, 0xfe]);
    assert_eq!(ev, Event::Error("invalid utf-8 payload"));
    assert!(ws.is_closed);
}

#[test]
fn reserved_bits_are_an_error() {
    let mut ws = WebSocket::client();
    let (ev, _) = recv(&mut ws, &[0xc1, 0x00]);
    assert_eq!(ev, Event::Error("reserve bit must be `0`"));
    assert!(ws.is_closed);
    assert_eq!(ws.recv(&[0x81, 0x00]), Err(RecvError::Closed));
}

#[test]
fn role_masking_rules() {
    // a server rejects unmasked frames
    let mut ws = WebSocket::server();
    let (ev, _) = recv(&mut ws, &[0x81, 0x05, 0x48, 0x65, 0x6c, 0x6c, 0x6f]);
    assert_eq!(ev, Event::Error("expected masked frame"));
    assert!(ws.is_closed);

    // a client rejects masked frames
    let mut ws = WebSocket::client();
    let (ev, _) = recv(
        &mut ws,
        &[0x81, 0x85, 0x37, 0xfa, 0x21, 0x3d, 0x7f, 0x9f, 0x4d, 0x51, 0x58],
    );
    assert_eq!(ev, Event::Error("expected unmasked frame"));
    assert!(ws.is_closed);
}

#[test]
fn reserved_opcodes_are_errors() {
    let mut ws = WebSocket::client();
    let (ev, _) = recv(&mut ws, &[0x83, 0x00]);
    assert_eq!(ev, Event::Error("unknown opcode"));

    let mut ws = WebSocket::client();
    let (ev, _) = recv(&mut ws, &[0x8b, 0x00]);
    assert_eq!(ev, Event::Error("unknown opcode"));
}

#[test]
fn control_frame_rules() {
    let mut ws = WebSocket::client();
    let (ev, _) = recv(&mut ws, &[0x09, 0x00]);
    assert_eq!(ev, Event::Error("control frame must not be fragmented"));

    let mut ws = WebSocket::client();
    let (ev, _) = recv(&mut ws, &[0x89, 0x7e]);
    assert_eq!(
        ev,
        Event::Error("control frame must have a payload length of 125 bytes or less")
    );
}

#[test]
fn fragmentation_protocol_errors() {
    // continuation with no message in progress
    let mut ws = WebSocket::client();
    let (ev, _) = recv(&mut ws, &[0x80, 0x00]);
    assert_eq!(ev, Event::Error("unexpected continuation"));

    // a new text frame while a fragmented message is in progress
    let mut ws = WebSocket::client();
    let _ = recv(&mut ws, &[0x01, 0x03, 0x48, 0x65, 0x6c]);
    let (ev, _) = recv(&mut ws, &[0x81, 0x01, 0x48]);
    assert_eq!(ev, Event::Error("expected continuation frame"));
}

#[test]
fn payload_over_limit_is_an_error() {
    let mut ws = WebSocket::client();
    ws.max_payload_len = 4;
    let (ev, _) = recv(&mut ws, &[0x81, 0x05, 0x48, 0x65, 0x6c, 0x6c, 0x6f]);
    assert_eq!(ev, Event::Error("payload too large"));
}

#[test]
fn incomplete_input_asks_for_more() {
    let mut ws = WebSocket::client();
    assert_eq!(ws.recv(&[]), Err(RecvError::Incomplete));
    assert_eq!(ws.recv(&[0x81]), Err(RecvError::Incomplete));
    assert_eq!(ws.recv(&[0x81, 0x05, 0x48]), Err(RecvError::Incomplete));
    // extended 16-bit length cut short
    assert_eq!(ws.recv(&[0x81, 0x7e, 0x01]), Err(RecvError::Incomplete));
    assert!(!ws.is_closed);
    assert_eq!(ws.fragment, None);
}

#[test]
fn ping_pong_and_close_builders() {
    let server = WebSocket::server();
    assert_eq!(
        server.send_ping(b"Hello").unwrap(),
        [0x89, 0x05, 0x48, 0x65, 0x6c, 0x6c, 0x6f]
    );
    assert_eq!(
        server.send_pong(b"Hello").unwrap(),
        [0x8a, 0x05, 0x48, 0x65, 0x6c, 0x6c, 0x6f]
    );
    let long = [0u8; 126];
    assert_eq!(server.send_ping(&long), Err(SendError::ControlTooLong));
    assert_eq!(server.send_pong(&long), Err(SendError::ControlTooLong));

    let mut server = WebSocket::server();
    let out = server.close(1000u16);
    assert_eq!(out, [0x88, 0x02, 0x03, 0xe8]);
    assert!(server.is_closed);
    assert_eq!(server.recv(&[0x81, 0x00]), Err(RecvError::Closed));
}

#[test]
fn close_reason_encodings() {
    let mut server = WebSocket::server();
    assert_eq!(server.close(()), [0x88, 0x00]);

    let mut server = WebSocket::server();
    assert_eq!(server.close(CloseCode::Away), [0x88, 0x02, 0x03, 0xe9]);

    let mut server = WebSocket::server();
    let out = server.close((1002u16, "oops"));
    assert_eq!(out, [0x88, 0x06, 0x03, 0xea, b'o', b'o', b'p', b's']);

    let mut server = WebSocket::server();
    let out = server.close("bye");
    assert_eq!(out, [0x88, 0x05, 0x03, 0xe8, b'b', b'y', b'e']);

    // a long reason is cut at 123 bytes, keeping the payload within 125
    let long = "x".repeat(200);
    let mut server = WebSocket::server();
    let out = server.close((1000u16, long.as_str()));
    assert_eq!(out[1] as usize, 125);
    assert_eq!(out.len(), 2 + 125);
}

#[test]
fn constructors_and_roles() {
    let c = WebSocket::client();
    assert_eq!(c.role, Role::Client);
    assert_eq!(c.max_payload_len, 16 * 1024 * 1024);
    assert!(!c.is_closed);
    assert_eq!(c.fragment, None);

    let s = WebSocket::new(Role::Server);
    assert_eq!(s.role, Role::Server);

    assert!(MessageType::Text.is_text());
    assert!(MessageType::Binary.is_binary());
    assert_eq!(Stream::Start(MessageType::Binary).ty(), MessageType::Binary);
    assert_eq!(
        DataType::Stream(Stream::End(MessageType::Text)).ty(),
        MessageType::Text
    );
    assert_eq!(CloseCode::Normal.as_u16(), 1000);
    assert_eq!(CloseCode::from_u16(1001), CloseCode::Away);
    assert_eq!(CloseCode::from_u16(4321), CloseCode::PolicyViolation);
}

#[test]
fn unmasked() {
    // ----------------------- send txt message -----------------------
    let ws = WebSocket::server();
    let writer = ws.send(&Frame::text("Hello"));
    assert_eq!(writer, [0x81, 5, b'H', b'e', b'l', b'l', b'o']);

    // ----------------------- send ping request ----------------------
    let ws = WebSocket::server();
    let writer = ws.send_ping(b"Hello").unwrap();
    assert_eq!(writer, [0x89, 5, b'H', b'e', b'l', b'l', b'o']);

    // ----------------------- streaming text -------------------------
    let ws = WebSocket::server();
    let mut writer = ws.send(&Frame {
        fin: false,
        opcode: 1,
        data: b"Hel".to_vec(),
    });
    writer.extend_from_slice(&ws.send(&Frame {
        fin: true,
        opcode: 0,
        data: b"lo".to_vec(),
    }));
    assert_eq!(
        writer,
        [
            0x01, 3, b'H', b'e', b'l', // fragmented frame
            0x80, 2, b'l', b'o', // final frame
        ]
    );
}

#[test]
fn server_to_client_round_trip() {
    // the server encodes, the client decodes; extended-16 length path
    let server = WebSocket::server();
    let payload: Vec<u8> = (0..300u32).map(|i| (i % 251) as u8).collect();
    let wire = server.send(&Frame {
        fin: true,
        opcode: 2,
        data: payload.clone(),
    });

    let mut client = WebSocket::client();
    let (ev, used) = client.recv(&wire).expect("an event");
    assert_eq!(used, wire.len());
    match ev {
        Event::Data { ty, data } => {
            assert!(matches!(ty, DataType::Complete(MessageType::Binary)));
            assert_eq!(data, payload);
        }
        other => panic!("expected a data event, got {other:?}"),
    }
}

#[test]
fn client_to_server_round_trip() {
    // the client masks under a random key, the server unmasks
    let client = WebSocket::client();
    let wire = client.send(&Frame::text("Hello, world"));

    let mut server = WebSocket::server();
    let (ev, used) = server.recv(&wire).expect("an event");
    assert_eq!(used, wire.len());
    match ev {
        Event::Data { ty, data } => {
            assert!(matches!(ty, DataType::Complete(MessageType::Text)));
            assert_eq!(data, b"Hello, world");
        }
        other => panic!("expected a data event, got {other:?}"),
    }
}

#[test]
fn extended_64_round_trip() {
    let server = WebSocket::server();
    let payload = vec![0x5au8; 65536];
    let wire = server.send(&Frame {
        fin: true,
        opcode: 2,
        data: payload.clone(),
    });
    assert_eq!(
        &wire[..10],
        [0x82, 0x7f, 0x00, 0x00, 0x00, 0x00, 0x00, 0x01, 0x00, 0x00]
    );

    let mut client = WebSocket::client();
    let (ev, used) = client.recv(&wire).expect("an event");
    assert_eq!(used, wire.len());
    match ev {
        Event::Data { data, .. } => assert_eq!(data, payload),
        other => panic!("expected a data event, got {other:?}"),
    }
}

#[test]
fn two_frames_in_one_buffer() {
    // the consumed count lets a caller walk a buffer holding several frames
    let mut buf = WebSocket::server().send(&Frame::text("Hi"));
    buf.extend_from_slice(&WebSocket::server().send_ping(b"x").unwrap());

    let mut client = WebSocket::client();
    let (ev, used) = client.recv(&buf).expect("an event");
    assert!(matches!(ev, Event::Data { .. }));
    let (ev, used2) = client.recv(&buf[used..]).expect("an event");
    match ev {
        Event::Pong(_) => panic!("expected a ping"),
        Event::Ping(data) => assert_eq!(data, b"x"),
        other => panic!("expected a ping, got {other:?}"),
    }
    assert_eq!(used + used2, buf.len());
}
