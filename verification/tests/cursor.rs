use connection_test::cursor::{cursor_update_message, Color, MouseCursor, Point, CHANNEL_HIGH, CHANNEL_LOW};
use connection_test::packet::{Packet, PacketError, PacketLoad, PacketReader};

fn sample() -> MouseCursor {
    MouseCursor {
        position: Point { x: 1.5f32.to_bits(), y: (-2.25f32).to_bits() },
        pressed: true,
        color: Color { r: 10, g: 20, b: 30, a: 255 },
    }
}

#[test]
fn payload_layout() {
    let c = sample();
    let mut expected = Vec::new();
    expected.extend_from_slice(&1.5f32.to_be_bytes());
    expected.extend_from_slice(&(-2.25f32).to_be_bytes());
    expected.extend_from_slice(&[1, 10, 20, 30, 255]);
    assert_eq!(c.to_packet_payload(), expected);
    assert_eq!(MouseCursor::payload_size(), 13);
    assert_eq!(c.to_packet_payload().len(), MouseCursor::payload_size());
}

#[test]
fn payload_roundtrip_law() {
    let c = sample();
    let back = MouseCursor::from_packet_payload(&c.to_packet_payload()).unwrap();
    assert_eq!(back, c);
    assert_eq!(f32::from_bits(back.position.x), 1.5);
    assert_eq!(f32::from_bits(back.position.y), -2.25);
}

#[test]
fn payload_read_write_law() {
    let p = vec![0, 0, 0, 1, 0, 0, 0, 2, 0, 4, 5, 6, 7, 99, 98];
    let c = MouseCursor::from_packet_payload(&p).unwrap();
    assert_eq!(c.to_packet_payload(), p[0..13].to_vec());
}

#[test]
fn nonzero_button_byte_is_pressed() {
    let p = vec![0, 0, 0, 0, 0, 0, 0, 0, 7, 1, 2, 3, 4];
    let c = MouseCursor::from_packet_payload(&p).unwrap();
    assert!(c.pressed);
    assert_eq!(c.color, Color { r: 1, g: 2, b: 3, a: 4 });
}

#[test]
fn short_payload_is_refused() {
    match MouseCursor::from_packet_payload(&vec![1, 2, 3]) {
        Err(PacketError::TooShort { expected, got }) => {
            assert_eq!(expected, 13);
            assert_eq!(got, 3);
        }
        _ => panic!("expected a too-short error"),
    }
}

#[test]
fn reader_reads_cursor() {
    let c = sample();
    let packet = Packet { packet_type: 1, payload_len: 13, payload: c.to_packet_payload() };
    let read: Option<MouseCursor> = PacketReader::read(&packet);
    assert_eq!(read, Some(c));
    let short = Packet { packet_type: 1, payload_len: 2, payload: vec![1, 2] };
    let none: Option<MouseCursor> = PacketReader::read(&short);
    assert_eq!(none, None);
}

#[test]
fn new_cursor_is_fresh() {
    let start = Point { x: 0, y: 0 };
    let mut all_low = true;
    for _ in 0..64 {
        let c = MouseCursor::new(start);
        assert_eq!(c.position, start);
        assert!(!c.pressed);
        assert_eq!(c.color.a, 255);
        for ch in [c.color.r, c.color.g, c.color.b] {
            assert!(CHANNEL_LOW <= ch && ch < CHANNEL_HIGH);
            if ch != CHANNEL_LOW {
                all_low = false;
            }
        }
    }
    assert!(!all_low);
}

#[test]
fn rgb_is_opaque() {
    assert_eq!(Color::rgb(1, 2, 3), Color { r: 1, g: 2, b: 3, a: 255 });
}

#[test]
fn update_message_layout() {
    let c = sample();
    let bytes = cursor_update_message(0x0102, &c);
    let mut expected = vec![0x01];
    expected.extend_from_slice(&16usize.to_be_bytes());
    expected.extend_from_slice(&[0x01, 0x01, 0x02]);
    expected.extend(c.to_packet_payload());
    assert_eq!(bytes, expected);
}
