use connection_test::client::{Client, ClientNotice, InputEvent, InputOutcome};
use connection_test::cursor::{cursor_update_message, Color, MouseCursor, Point};
use connection_test::packet::PacketLoad;

fn cursor(x: u32, pressed: bool, r: u8) -> MouseCursor {
    MouseCursor { position: Point { x, y: x + 1 }, pressed, color: Color { r, g: 2, b: 3, a: 255 } }
}

fn update_datagram(id: u16, c: &MouseCursor) -> Vec<u8> {
    let mut payload = vec![0x01];
    payload.extend_from_slice(&id.to_be_bytes());
    payload.extend(c.to_packet_payload());
    let mut d = vec![0x01];
    d.extend_from_slice(&(payload.len() as u16).to_be_bytes());
    d.extend(payload);
    d
}

fn delete_datagram(id: u16) -> Vec<u8> {
    let mut d = vec![0x01, 0x00, 0x03, 0x02];
    d.extend_from_slice(&id.to_be_bytes());
    d
}

#[test]
fn handshake_bytes() {
    assert_eq!(Client::handshake_request(), vec![0xff, 0x00, 0x01, 0xff]);
}

#[test]
fn connect_reads_id() {
    let c = Client::connect(&[0xff, 0x01, 0x02, 0, 0]);
    assert!(c.is_running());
    assert_eq!(c.online_id, 0x0102);
    assert!(c.mouses.is_empty());
    assert_eq!(c.client_mouse.position, Point { x: 0, y: 0 });
    assert!(!c.client_mouse.pressed);
}

#[test]
fn update_adds_then_merges_keeping_color() {
    let mut c = Client::connect(&[0xff, 0x00, 0x07]);
    let first = cursor(10, false, 100);
    let d = update_datagram(3, &first);
    assert!(Client::accepts(&d));
    assert!(matches!(c.interpret_server_packet(d), ClientNotice::Quiet));
    assert_eq!(c.mouses.get(&3), Some(&first));
    let second = cursor(20, true, 200);
    assert!(matches!(c.interpret_server_packet(update_datagram(3, &second)), ClientNotice::Quiet));
    let held = c.mouses.get(&3).unwrap();
    assert_eq!(held.position, second.position);
    assert!(held.pressed);
    assert_eq!(held.color.r, 100);
}

#[test]
fn own_id_is_ignored() {
    let mut c = Client::connect(&[0xff, 0x00, 0x07]);
    c.interpret_server_packet(update_datagram(7, &cursor(1, false, 1)));
    assert!(c.mouses.is_empty());
    c.update_or_add_cursor(7, cursor(1, false, 1));
    assert!(c.mouses.is_empty());
}

#[test]
fn delete_removes() {
    let mut c = Client::connect(&[0xff, 0x00, 0x07]);
    c.update_or_add_cursor(4, cursor(1, false, 1));
    assert!(c.mouses.contains_key(&4));
    assert!(matches!(c.interpret_server_packet(delete_datagram(4)), ClientNotice::Quiet));
    assert!(!c.mouses.contains_key(&4));
    c.update_or_add_cursor(5, cursor(1, false, 1));
    c.remove_cursor(5);
    assert!(c.mouses.is_empty());
}

#[test]
fn unknown_cursor_kind_reported() {
    let mut c = Client::connect(&[0xff, 0x00, 0x07]);
    let d = vec![0x01, 0x00, 0x01, 0x09];
    assert!(Client::accepts(&d));
    match c.interpret_server_packet(d) {
        ClientNotice::UnknownCursorKind(k) => assert_eq!(k, 9),
        other => panic!("unexpected {other:?}"),
    }
}

#[test]
fn other_packets_change_nothing() {
    let mut c = Client::connect(&[0xff, 0x00, 0x07]);
    assert!(matches!(c.interpret_server_packet(vec![0xff, 0x00, 0x00]), ClientNotice::Quiet));
    assert!(matches!(c.interpret_server_packet(vec![0x01]), ClientNotice::Quiet));
    assert!(c.mouses.is_empty());
}

#[test]
fn accepts_refuses_truncated_datagrams() {
    assert!(!Client::accepts(&vec![0x01, 0x00, 0x05, 1]));
    assert!(!Client::accepts(&vec![0x01, 0x00, 0x00]));
    assert!(!Client::accepts(&vec![0x01, 0x00, 0x02, 0x01, 0x00]));
    assert!(!Client::accepts(&vec![0x01, 0x00, 0x02, 0x02, 0x00]));
    assert!(Client::accepts(&vec![0x00, 0x00, 0x00]));
    // a cursor update as peers write it carries its length over a whole usize,
    // so the frame's two length bytes read 0 and the cursor packet is empty
    let sent = cursor_update_message(1, &cursor(1, false, 1));
    assert_eq!(&sent[1..3], &[0, 0]);
    assert!(!Client::accepts(&sent));
}

#[test]
fn input_events() {
    let mut c = Client::connect(&[0xff, 0x00, 0x07]);
    c.track_pointer(Point { x: 5, y: 6 }, true);
    assert_eq!(c.client_mouse.position, Point { x: 5, y: 6 });
    assert!(c.client_mouse.pressed);
    match c.handle_input(InputEvent::Pointer) {
        InputOutcome::Send(bytes) => assert_eq!(bytes, cursor_update_message(7, &c.client_mouse)),
        other => panic!("unexpected {other:?}"),
    }
    assert!(matches!(c.handle_input(InputEvent::Other), InputOutcome::Nothing));
    assert!(c.is_running());
    assert!(matches!(c.handle_input(InputEvent::Quit), InputOutcome::Stop));
    assert!(!c.is_running());
}
