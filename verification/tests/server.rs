use connection_test::client::Client;
use connection_test::cursor::{cursor_update_message, Color, MouseCursor, Point, CHANNEL_HIGH, CHANNEL_LOW};
use connection_test::packet::{Packet, PacketLoad};
use connection_test::server::{Server, ServerAction};

fn cursor(x: u32, pressed: bool) -> MouseCursor {
    MouseCursor { position: Point { x, y: x }, pressed, color: Color { r: 50, g: 60, b: 70, a: 255 } }
}

fn frame(kind: u8, payload: &[u8]) -> Vec<u8> {
    let mut d = vec![kind];
    d.extend_from_slice(&(payload.len() as u16).to_be_bytes());
    d.extend_from_slice(payload);
    d
}

fn update_payload(id: u16, c: &MouseCursor) -> Vec<u8> {
    let mut p = vec![0x01];
    p.extend_from_slice(&id.to_be_bytes());
    p.extend(c.to_packet_payload());
    p
}

fn join() -> Vec<u8> {
    vec![0xff, 0x00, 0x01, 0xff]
}

#[test]
fn new_server_is_empty() {
    let s: Server<u32> = Server::new();
    assert!(s.is_running());
    assert_eq!(s.next_client_id(), 0);
    assert_eq!(s.cursor(0), None);
}

#[test]
fn join_answers_and_announces() {
    let mut s: Server<u32> = Server::new();
    let joiner = cursor(0, false);
    let acts = s.receive(join(), 100, joiner);
    assert_eq!(acts.len(), 2);
    match &acts[0] {
        ServerAction::Reply { bytes, to } => {
            assert_eq!(bytes, &vec![0xff, 0x00, 0x00]);
            assert_eq!(*to, 100);
        }
        other => panic!("unexpected {other:?}"),
    }
    match &acts[1] {
        ServerAction::Send { bytes, to } => {
            assert_eq!(bytes, &cursor_update_message(0, &joiner));
            assert_eq!(*to, 100);
        }
        other => panic!("unexpected {other:?}"),
    }
    assert_eq!(s.next_client_id(), 1);
    assert_eq!(s.client_address(0), Some(100));
    assert_eq!(s.cursor(0), Some(joiner));

    let acts = s.receive(join(), 200, cursor(1, false));
    assert_eq!(acts.len(), 3);
    match &acts[0] {
        ServerAction::Reply { bytes, to } => {
            assert_eq!(bytes, &vec![0xff, 0x00, 0x01]);
            assert_eq!(*to, 200);
        }
        other => panic!("unexpected {other:?}"),
    }
    let mut announced: Vec<Vec<u8>> = acts[1..]
        .iter()
        .map(|a| match a {
            ServerAction::Send { bytes, to } => {
                assert_eq!(*to, 200);
                bytes.clone()
            }
            other => panic!("unexpected {other:?}"),
        })
        .collect();
    announced.sort();
    let mut expected = vec![cursor_update_message(0, &joiner), cursor_update_message(1, &cursor(1, false))];
    expected.sort();
    assert_eq!(announced, expected);
    assert_eq!(s.next_client_id(), 2);
}

#[test]
fn update_merges_and_relays_to_others() {
    let mut s: Server<u32> = Server::new();
    s.receive(join(), 100, cursor(0, false));
    s.receive(join(), 200, cursor(1, false));
    s.receive(join(), 300, cursor(2, false));
    let moved = MouseCursor { position: Point { x: 9, y: 9 }, pressed: true, color: Color { r: 1, g: 1, b: 1, a: 1 } };
    let data = frame(0x01, &update_payload(1, &moved));
    assert!(s.accepts(&data));
    let acts = s.receive(data.clone(), 200, cursor(5, false));
    match &acts[0] {
        ServerAction::ShowPacket(p) => {
            assert_eq!(p.packet_type, 0x01);
            assert_eq!(p.payload_len, 16);
        }
        other => panic!("unexpected {other:?}"),
    }
    let mut targets: Vec<u32> = acts[1..]
        .iter()
        .map(|a| match a {
            ServerAction::Send { bytes, to } => {
                assert_eq!(bytes, &data);
                *to
            }
            other => panic!("unexpected {other:?}"),
        })
        .collect();
    targets.sort();
    assert_eq!(targets, vec![100, 300]);
    let held = s.cursor(1).unwrap();
    assert_eq!(held.position, moved.position);
    assert!(held.pressed);
    assert_eq!(held.color, cursor(1, false).color);
    assert_eq!(s.next_client_id(), 3);
}

#[test]
fn update_of_unknown_id_adds_cursor() {
    let mut s: Server<u32> = Server::new();
    let c = cursor(4, true);
    let acts = s.receive(frame(0x01, &update_payload(42, &c)), 1, cursor(0, false));
    assert_eq!(acts.len(), 1);
    assert_eq!(s.cursor(42), Some(c));
}

#[test]
fn delete_uses_bytes_two_and_three() {
    let mut s: Server<u32> = Server::new();
    s.update_or_add_cursor(0x0304, cursor(1, false));
    let mut payload = vec![0x02, 0x00, 0x03, 0x04];
    payload.extend_from_slice(&[0u8; 12]);
    let acts = s.receive(frame(0x01, &payload), 1, cursor(0, false));
    assert!(acts.is_empty());
    assert_eq!(s.cursor(0x0304), None);
}

#[test]
fn server_reports_unknown_cursor_kind() {
    let mut s: Server<u32> = Server::new();
    let mut payload = vec![0x07, 0x00, 0x01];
    payload.extend_from_slice(&[0u8; 13]);
    let acts = s.receive(frame(0x01, &payload), 1, cursor(0, false));
    assert_eq!(acts.len(), 1);
    assert!(matches!(acts[0], ServerAction::UnknownCursorKind(7)));
}

#[test]
fn ignored_datagrams() {
    let mut s: Server<u32> = Server::new();
    assert!(s.receive(vec![0x00, 0x00, 0x00], 1, cursor(0, false)).is_empty());
    assert!(s.receive(vec![0x33, 0x00, 0x00], 1, cursor(0, false)).is_empty());
    assert!(s.receive(vec![0xff], 1, cursor(0, false)).is_empty());
    assert_eq!(s.next_client_id(), 0);
}

#[test]
fn accepts_checks_lengths() {
    let s: Server<u32> = Server::new();
    assert!(s.accepts(&vec![]));
    assert!(!s.accepts(&vec![0x01, 0x00, 0x02, 0x01]));
    assert!(!s.accepts(&frame(0x01, &[0x01, 0x00, 0x00])));
    assert!(s.accepts(&frame(0x01, &[0u8; 16])));
    assert!(s.accepts(&join()));
    let mut buffer = vec![0u8; 1024];
    buffer[..4].copy_from_slice(&join());
    assert!(s.accepts(&buffer));
}

#[test]
fn update_gives_random_fresh_cursor() {
    let mut s: Server<u32> = Server::new();
    let acts = s.update(join(), 9);
    assert_eq!(acts.len(), 2);
    let c = s.cursor(0).unwrap();
    assert_eq!(c.position, Point { x: 0, y: 0 });
    assert!(!c.pressed);
    assert_eq!(c.color.a, 255);
    for ch in [c.color.r, c.color.g, c.color.b] {
        assert!(CHANNEL_LOW <= ch && ch < CHANNEL_HIGH);
    }
}

#[test]
fn shown_packet_matches_datagram() {
    let mut s: Server<u32> = Server::new();
    let data = frame(0x01, &update_payload(1, &cursor(3, false)));
    let acts = s.receive(data.clone(), 1, cursor(0, false));
    match &acts[0] {
        ServerAction::ShowPacket(p) => {
            let q = Packet::from_bytes(data).unwrap();
            assert_eq!(p.payload, q.payload);
        }
        other => panic!("unexpected {other:?}"),
    }
}

#[test]
fn join_handshake_law() {
    let mut s: Server<u32> = Server::new();
    s.receive(join(), 1, cursor(0, false));
    let request = Client::handshake_request();
    assert!(s.accepts(&request));
    let acts = s.receive(request, 2, cursor(1, false));
    match &acts[0] {
        ServerAction::Reply { bytes, to } => {
            assert_eq!(*to, 2);
            let c = Client::connect(bytes);
            assert_eq!(c.online_id, 1);
        }
        other => panic!("unexpected {other:?}"),
    }
}
