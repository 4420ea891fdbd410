use connection_test::text::decimal_text;
use connection_test::bytes::{u16_from_be_bytes, u16_to_be_bytes, u32_from_be_bytes, u32_to_be_bytes, usize_to_be_bytes};
use connection_test::packet::{Packet, PacketCursor, PacketError, PacketType};

#[test]
fn from_bytes_reads_header_and_payload() {
    let p = Packet::from_bytes(vec![0xff, 0x00, 0x01, 0xff]).unwrap();
    assert_eq!(p.packet_type, 0xff);
    assert_eq!(p.payload_len, 1);
    assert_eq!(p.payload, vec![0xff]);
}

#[test]
fn from_bytes_ignores_trailing_bytes() {
    let p = Packet::from_bytes(vec![0x01, 0x00, 0x02, 7, 8, 9, 10]).unwrap();
    assert_eq!(p.packet_type, 0x01);
    assert_eq!(p.payload_len, 2);
    assert_eq!(p.payload, vec![7, 8]);
}

#[test]
fn from_bytes_short_input_is_none() {
    assert!(Packet::from_bytes(vec![]).is_none());
    assert!(Packet::from_bytes(vec![1, 2]).is_none());
}

#[test]
fn from_bytes_big_length_field() {
    let mut bytes = vec![0x00, 0x01, 0x00];
    bytes.extend(std::iter::repeat(5u8).take(256));
    let p = Packet::from_bytes(bytes).unwrap();
    assert_eq!(p.payload_len, 256);
    assert_eq!(p.payload.len(), 256);
}

#[test]
fn to_bytes_writes_fields() {
    let p = Packet { packet_type: 0x01, payload_len: 0x0102, payload: vec![9, 8, 7] };
    assert_eq!(p.to_bytes(), vec![0x01, 0x01, 0x02, 9, 8, 7]);
}

#[test]
fn packet_write_read_law() {
    let p = Packet { packet_type: 0x01, payload_len: 3, payload: vec![1, 2, 3] };
    assert!(p.is_consistent());
    let q = Packet::from_bytes(p.to_bytes()).unwrap();
    assert_eq!(q.packet_type, p.packet_type);
    assert_eq!(q.payload_len, p.payload_len);
    assert_eq!(q.payload, p.payload);
}

#[test]
fn packet_read_write_law() {
    let bytes = vec![0x01, 0x00, 0x02, 0xaa, 0xbb, 0xcc];
    let p = Packet::from_bytes(bytes.clone()).unwrap();
    assert!(p.is_consistent());
    assert_eq!(p.to_bytes(), bytes[0..5].to_vec());
}

#[test]
fn inconsistent_packet_detected() {
    let p = Packet { packet_type: 0x01, payload_len: 4, payload: vec![1] };
    assert!(!p.is_consistent());
}

#[test]
fn packet_type_bytes() {
    assert_eq!(PacketType::Acknowledge.to_byte(), 0xff);
    assert_eq!(PacketType::PacketError.to_byte(), 0x00);
    assert_eq!(PacketType::Cursor.to_byte(), 0x01);
    assert_eq!(PacketType::try_from(0xffu8), Ok(PacketType::Acknowledge));
    assert_eq!(PacketType::try_from(0x00u8), Ok(PacketType::PacketError));
    assert_eq!(PacketType::try_from(0x01u8), Ok(PacketType::Cursor));
    assert_eq!(PacketType::try_from(0x42u8), Err(0x42));
}

#[test]
fn packet_cursor_bytes() {
    assert_eq!(PacketCursor::Update.to_byte(), 0x01);
    assert_eq!(PacketCursor::Delete.to_byte(), 0x02);
    assert_eq!(PacketCursor::try_from(0x01u8), Ok(PacketCursor::Update));
    assert_eq!(PacketCursor::try_from(0x02u8), Ok(PacketCursor::Delete));
    assert_eq!(PacketCursor::try_from(0x00u8), Err(0x00));
}

#[test]
fn packet_kind_roundtrip_law() {
    for t in [PacketType::Acknowledge, PacketType::PacketError, PacketType::Cursor] {
        assert_eq!(PacketType::try_from(t.to_byte()), Ok(t));
    }
    for b in 0..=255u8 {
        if let Ok(t) = PacketType::try_from(b) {
            assert_eq!(t.to_byte(), b);
        }
        if let Ok(t) = PacketCursor::try_from(b) {
            assert_eq!(t.to_byte(), b);
        }
    }
}

#[test]
fn error_messages() {
    let e = PacketError::TooShort { expected: 13, got: 4 };
    assert_eq!(e.describe(), "payload too short: expected 13, got 4");
    let e = PacketError::InvalidData(String::from("bad"));
    assert_eq!(e.describe(), "invalid data: bad");
}

#[test]
fn big_endian_helpers() {
    assert_eq!(u16_to_be_bytes(0x1234), vec![0x12, 0x34]);
    assert_eq!(u16_from_be_bytes(0x12, 0x34), 0x1234);
    assert_eq!(u32_to_be_bytes(0x0102_0304), vec![1, 2, 3, 4]);
    assert_eq!(u32_from_be_bytes(1, 2, 3, 4), 0x0102_0304);
    assert_eq!(usize_to_be_bytes(16), 16usize.to_be_bytes().to_vec());
    assert_eq!(usize_to_be_bytes(usize::MAX), usize::MAX.to_be_bytes().to_vec());
}

#[test]
fn decimal_text_matches_display() {
    for n in [0usize, 7, 10, 13, 99, 100, 65535, 1234567890, usize::MAX] {
        assert_eq!(decimal_text(n), n.to_string());
    }
}
