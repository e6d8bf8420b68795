use rust_terminal::protocol::{
    init_text, initial_size, route_message, InboundMessage, InitMessage, RouterAction, TermSize,
};

fn write_bytes(a: RouterAction) -> Vec<u8> {
    match a {
        RouterAction::Write(b) => b,
        _ => panic!("not a write"),
    }
}

#[test]
fn input_frame_writes_payload() {
    let a = route_message(InboundMessage::Binary(b"0echo hi\n".to_vec()));
    assert_eq!(write_bytes(a), b"echo hi\n".to_vec());
}

#[test]
fn input_payloads_reach_stdin_in_order() {
    let payloads: Vec<&[u8]> = vec![b"ls", b" -la", b"", b"\n", b"\x03"];
    let mut stdin = Vec::new();
    for p in &payloads {
        let mut frame = vec![0x30u8];
        frame.extend_from_slice(p);
        stdin.extend(write_bytes(route_message(InboundMessage::Binary(frame))));
    }
    assert_eq!(stdin, b"ls -la\n\x03".to_vec());
}

#[test]
fn resize_frame_hands_json_over() {
    match route_message(InboundMessage::Binary(b"1{\"columns\":40,\"rows\":12}".to_vec())) {
        RouterAction::Resize(t) => assert_eq!(t, "{\"columns\":40,\"rows\":12}"),
        _ => panic!("not a resize"),
    }
}

#[test]
fn resize_frame_with_invalid_utf8_is_dropped() {
    assert!(matches!(
        route_message(InboundMessage::Binary(vec![0x31, 0xff, 0xfe])),
        RouterAction::Ignore
    ));
}

#[test]
fn flow_control_opcodes() {
    assert!(matches!(route_message(InboundMessage::Binary(vec![0x32])), RouterAction::Pause));
    assert!(matches!(route_message(InboundMessage::Binary(vec![0x33])), RouterAction::Resume));
}

#[test]
fn unknown_and_empty_frames_are_ignored() {
    assert!(matches!(route_message(InboundMessage::Binary(vec![0x34, 1])), RouterAction::Ignore));
    assert!(matches!(route_message(InboundMessage::Binary(vec![])), RouterAction::Ignore));
    assert!(matches!(route_message(InboundMessage::Other), RouterAction::Ignore));
}

#[test]
fn text_frame_is_a_resize_request_and_close_stops() {
    match route_message(InboundMessage::Text("not json".to_string())) {
        RouterAction::Resize(t) => assert_eq!(t, "not json"),
        _ => panic!("not a resize"),
    }
    assert!(matches!(route_message(InboundMessage::Close), RouterAction::Stop));
}

#[test]
fn handshake_defaults_to_80x24() {
    assert_eq!(initial_size(None), TermSize { cols: 80, rows: 24 });
}

#[test]
fn handshake_size_is_taken() {
    let s = initial_size(Some(InitMessage { columns: 120, rows: 40 }));
    assert_eq!(s, TermSize { cols: 120, rows: 40 });
}

#[test]
fn handshake_size_is_clamped_then_cut_to_16_bits() {
    assert_eq!(initial_size(Some(InitMessage { columns: 0, rows: 0 })), TermSize { cols: 1, rows: 1 });
    assert_eq!(
        initial_size(Some(InitMessage { columns: 70000, rows: 65536 })),
        TermSize { cols: 4464, rows: 0 }
    );
}

#[test]
fn init_text_of_frames() {
    assert_eq!(init_text(InboundMessage::Text("{}".to_string())).as_deref(), Some("{}"));
    assert_eq!(init_text(InboundMessage::Binary(b"{\"rows\":1}".to_vec())).as_deref(), Some("{\"rows\":1}"));
    assert!(init_text(InboundMessage::Binary(vec![0xc3])).is_none());
    assert!(init_text(InboundMessage::Close).is_none());
}
