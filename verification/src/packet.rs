//! The packet frame, the packet kinds and the payload trait.
use vstd::prelude::*;

use crate::bytes::{
    be_digits,
    be_value,
    lemma_be_digits_of_value,
    lemma_be_value_bound,
    lemma_u16_roundtrip,
    u16_from_be_bytes,
    u16_to_be_bytes,
};
use crate::text::decimal;

verus! {

/// The kind of a packet, carried in its first byte.
#[derive(Debug, Clone, Copy, PartialEq, Eq, Structural)]
pub enum PacketType {
    Acknowledge,
    PacketError,
    Cursor,
}

/// The byte that stands for each packet kind.
pub open spec fn packet_type_byte(t: PacketType) -> u8 {
    match t {
        PacketType::Acknowledge => 0xff,
        PacketType::PacketError => 0x00,
        PacketType::Cursor => 0x01,
    }
}

/// The packet kind a byte stands for; an unknown byte is handed back as the error.
pub open spec fn packet_type_of(value: u8) -> Result<PacketType, u8> {
    if value == 0xff {
        Ok(PacketType::Acknowledge)
    } else if value == 0x00 {
        Ok(PacketType::PacketError)
    } else if value == 0x01 {
        Ok(PacketType::Cursor)
    } else {
        Err(value)
    }
}

impl PacketType {
    /// The byte that stands for this packet kind on the wire.
    pub fn to_byte(self) -> (r: u8)
        ensures
            r == packet_type_byte(self),
    {
        match self {
            PacketType::Acknowledge => 0xff,
            PacketType::PacketError => 0x00,
            PacketType::Cursor => 0x01,
        }
    }
}

impl TryFrom<u8> for PacketType {
    type Error = u8;

    fn try_from(value: u8) -> (r: Result<PacketType, u8>) {
        if value == 0xff {
            Ok(PacketType::Acknowledge)
        } else if value == 0x00 {
            Ok(PacketType::PacketError)
        } else if value == 0x01 {
            Ok(PacketType::Cursor)
        } else {
            Err(value)
        }
    }
}

impl vstd::std_specs::convert::TryFromSpecImpl<u8> for PacketType {
    open spec fn obeys_try_from_spec() -> bool {
        true
    }

    open spec fn try_from_spec(v: u8) -> Result<Self, u8> {
        packet_type_of(v)
    }
}


/// The kind of a cursor packet, carried in the first byte of its payload.
#[derive(Debug, Clone, Copy, PartialEq, Eq, Structural)]
pub enum PacketCursor {
    Update,
    Delete,
}

/// The byte that stands for each cursor packet kind.
pub open spec fn packet_cursor_byte(t: PacketCursor) -> u8 {
    match t {
        PacketCursor::Update => 0x01,
        PacketCursor::Delete => 0x02,
    }
}

/// The cursor packet kind a byte stands for; an unknown byte is handed back as the error.
pub open spec fn packet_cursor_of(value: u8) -> Result<PacketCursor, u8> {
    if value == 0x01 {
        Ok(PacketCursor::Update)
    } else if value == 0x02 {
        Ok(PacketCursor::Delete)
    } else {
        Err(value)
    }
}

impl PacketCursor {
    /// The byte that stands for this cursor packet kind on the wire.
    pub fn to_byte(self) -> (r: u8)
        ensures
            r == packet_cursor_byte(self),
    {
        match self {
            PacketCursor::Update => 0x01,
            PacketCursor::Delete => 0x02,
        }
    }
}

impl TryFrom<u8> for PacketCursor {
    type Error = u8;

    fn try_from(value: u8) -> (r: Result<PacketCursor, u8>) {
        if value == 0x01 {
            Ok(PacketCursor::Update)
        } else if value == 0x02 {
            Ok(PacketCursor::Delete)
        } else {
            Err(value)
        }
    }
}

impl vstd::std_specs::convert::TryFromSpecImpl<u8> for PacketCursor {
    open spec fn obeys_try_from_spec() -> bool {
        true
    }

    open spec fn try_from_spec(v: u8) -> Result<Self, u8> {
        packet_cursor_of(v)
    }
}

/// Every packet kind survives the trip to its byte and back.
pub proof fn lemma_packet_type_byte_roundtrip(t: PacketType)
    ensures
        packet_type_of(packet_type_byte(t)) == Ok::<PacketType, u8>(t),
{
}

/// A byte that names a packet kind is that kind's byte.
pub proof fn lemma_packet_type_of_roundtrip(value: u8)
    ensures
        packet_type_of(value) matches Ok(t) ==> packet_type_byte(t) == value,
{
}

/// Every cursor packet kind survives the trip to its byte and back.
pub proof fn lemma_packet_cursor_byte_roundtrip(t: PacketCursor)
    ensures
        packet_cursor_of(packet_cursor_byte(t)) == Ok::<PacketCursor, u8>(t),
{
}

/// A byte that names a cursor packet kind is that kind's byte.
pub proof fn lemma_packet_cursor_of_roundtrip(value: u8)
    ensures
        packet_cursor_of(value) matches Ok(t) ==> packet_cursor_byte(t) == value,
{
}

/// A framed packet: a kind byte, a big-endian payload length, and the payload.
///
/// The length field is carried as it was read or set; nothing ties it to the
/// length of `payload` (see `is_consistent`).
#[derive(Debug)]
pub struct Packet {
    pub packet_type: u8,
    pub payload_len: u16,
    pub payload: Vec<u8>,
}

/// The mathematical value of a packet.
pub struct PacketModel {
    pub packet_type: u8,
    pub payload_len: u16,
    pub payload: Seq<u8>,
}

impl View for Packet {
    type V = PacketModel;

    open spec fn view(&self) -> PacketModel {
        PacketModel { packet_type: self.packet_type, payload_len: self.payload_len, payload: self.payload@ }
    }
}

/// The length field of a frame: bytes 1 and 2, big-endian.
pub open spec fn frame_payload_len(bytes: Seq<u8>) -> nat {
    be_value(bytes.subrange(1, 3))
}

/// Whether a byte sequence can be read as a frame without running past its end:
/// it is shorter than a header (and read as nothing), or it holds the whole
/// payload that its length field announces.
pub open spec fn frame_fits(bytes: Seq<u8>) -> bool {
    bytes.len() < 3 || 3 + frame_payload_len(bytes) <= bytes.len()
}

/// The packet a byte sequence is read as: nothing below three bytes, else the
/// kind byte, the length field, and that many bytes after the header.
pub open spec fn packet_of_bytes(bytes: Seq<u8>) -> Option<PacketModel> {
    if bytes.len() < 3 {
        None
    } else {
        let n = frame_payload_len(bytes);
        Some(
            PacketModel {
                packet_type: bytes[0],
                payload_len: n as u16,
                payload: bytes.subrange(3, 3 + n as int),
            },
        )
    }
}

/// The bytes a packet is written as: kind byte, length field big-endian, payload.
pub open spec fn bytes_of_packet(p: PacketModel) -> Seq<u8> {
    seq![p.packet_type] + be_digits(p.payload_len as nat, 2) + p.payload
}

/// Whether the length field of a packet matches its payload.
pub open spec fn packet_is_consistent(p: PacketModel) -> bool {
    p.payload_len == p.payload.len()
}

impl Packet {
    /// Reads a packet from the front of `bytes`; `None` when there are fewer
    /// than three bytes. Bytes past the announced payload are ignored.
    pub fn from_bytes(bytes: Vec<u8>) -> (r: Option<Packet>)
        requires
            frame_fits(bytes@),
        ensures
            match r {
                None => packet_of_bytes(bytes@) is None,
                Some(p) => packet_of_bytes(bytes@) == Some(p@),
            },
            r matches Some(p) ==> p.payload@.len() == p.payload_len,
    {
        if bytes.len() < 3 {
            return None;
        }
        let packet_type: u8 = bytes[0];
        let payload_len: u16 = u16_from_be_bytes(bytes[1], bytes[2]);
        proof {
            assert(bytes@.subrange(1, 3) =~= seq![bytes@[1], bytes@[2]]);
        }
        let end: usize = 3 + payload_len as usize;
        let payload: Vec<u8> = vstd::slice::slice_to_vec(
            vstd::slice::slice_subrange(bytes.as_slice(), 3, end),
        );
        Some(Packet { packet_type, payload_len, payload })
    }

    /// Writes the packet: kind byte, length field big-endian, payload.
    pub fn to_bytes(&self) -> (r: Vec<u8>)
        ensures
            r@ == bytes_of_packet(self@),
    {
        let mut buffer: Vec<u8> = Vec::new();
        buffer.push(self.packet_type);
        let mut len_bytes = u16_to_be_bytes(self.payload_len);
        buffer.append(&mut len_bytes);
        let mut i: usize = 0;
        while i < self.payload.len()
            invariant
                i <= self.payload@.len(),
                buffer@ == seq![self.packet_type] + be_digits(self.payload_len as nat, 2)
                    + self.payload@.subrange(0, i as int),
            decreases self.payload@.len() - i,
        {
            buffer.push(self.payload[i]);
            i = i + 1;
            proof {
                assert(self.payload@.subrange(0, i as int) =~= self.payload@.subrange(
                    0,
                    (i - 1) as int,
                ).push(self.payload@[i - 1]));
                assert(buffer@ =~= seq![self.packet_type] + be_digits(self.payload_len as nat, 2)
                    + self.payload@.subrange(0, i as int));
            }
        }
        proof {
            assert(self.payload@.subrange(0, i as int) =~= self.payload@);
        }
        buffer
    }

    /// Whether the length field of the packet matches its payload.
    pub fn is_consistent(&self) -> (r: bool)
        ensures
            r == packet_is_consistent(self@),
    {
        self.payload_len as usize == self.payload.len()
    }
}

/// Writing a consistent packet and reading the bytes back gives the packet.
pub proof fn lemma_packet_write_read(p: PacketModel)
    requires
        packet_is_consistent(p),
    ensures
        frame_fits(bytes_of_packet(p)),
        packet_of_bytes(bytes_of_packet(p)) == Some(p),
{
    let b = bytes_of_packet(p);
    lemma_u16_roundtrip(p.payload_len);
    let d = be_digits(p.payload_len as nat, 2);
    assert(b.subrange(1, 3) =~= d);
    assert(b.subrange(3, 3 + p.payload_len as int) =~= p.payload);
    assert(b[0] == p.packet_type);
}

/// Reading a frame that fits gives nothing below three bytes, and otherwise a
/// consistent packet that writes back as the bytes it was read from, up to
/// the end of its payload.
pub proof fn lemma_packet_read_write(bytes: Seq<u8>)
    requires
        frame_fits(bytes),
    ensures
        bytes.len() < 3 ==> packet_of_bytes(bytes) is None,
        bytes.len() >= 3 ==> packet_of_bytes(bytes) is Some,
        packet_of_bytes(bytes) matches Some(p) ==> packet_is_consistent(p) && bytes_of_packet(p)
            == bytes.subrange(0, 3 + p.payload_len as int),
{
    if bytes.len() >= 3 {
        let p = packet_of_bytes(bytes).unwrap();
        let h = bytes.subrange(1, 3);
        lemma_be_value_bound(h);
        assert(crate::bytes::pow256(2) == 65536) by {
            reveal_with_fuel(crate::bytes::pow256, 3);
        }
        lemma_be_digits_of_value(h);
        assert(bytes_of_packet(p) =~= bytes.subrange(0, 3 + p.payload_len as int));
    }
}

/// Why a payload could not be read.
#[derive(Debug)]
pub enum PacketError {
    TooShort { expected: usize, got: usize },
    InvalidData(String),
}

/// The message of a payload error.
pub open spec fn packet_error_message(e: PacketError) -> Seq<char> {
    match e {
        PacketError::TooShort { expected, got } => "payload too short: expected "@ + decimal(
            expected as nat,
        ) + ", got "@ + decimal(got as nat),
        PacketError::InvalidData(msg) => "invalid data: "@ + msg@,
    }
}

impl PacketError {
    /// The message of the error, as it is shown to a user.
    pub fn describe(&self) -> (s: String)
        ensures
            s@ == packet_error_message(*self),
    {
        match self {
            PacketError::TooShort { expected, got } => {
                let mut s = String::from_str("payload too short: expected ");
                let expected_text = crate::text::decimal_text(*expected);
                s.append(expected_text.as_str());
                s.append(", got ");
                let got_text = crate::text::decimal_text(*got);
                s.append(got_text.as_str());
                s
            },
            PacketError::InvalidData(msg) => {
                let mut s = String::from_str("invalid data: ");
                s.append(msg.as_str());
                s
            },
        }
    }
}

/// A value that travels as the payload of a packet.
pub trait PacketLoad: Sized {
    /// The payload bytes that stand for `self`.
    spec fn payload_model(&self) -> Seq<u8>;

    /// What reading a payload gives.
    spec fn decode_model(payload: Seq<u8>) -> Result<Self, PacketError>;

    /// The number of payload bytes a value needs.
    spec fn payload_size_model() -> nat;

    /// Writes `self` as payload bytes.
    fn to_packet_payload(&self) -> (r: Vec<u8>)
        ensures
            r@ == self.payload_model(),
    ;

    /// Reads a value from the front of a payload.
    fn from_packet_payload(payload: &Vec<u8>) -> (r: Result<Self, PacketError>)
        ensures
            r == Self::decode_model(payload@),
    ;

    /// The number of payload bytes a value needs.
    fn payload_size() -> (n: usize)
        ensures
            n == Self::payload_size_model(),
    ;
}

/// Reads typed payloads out of packets.
pub struct PacketReader {
    pub packet_type: u8,
    pub buffer: Vec<u8>,
}

impl PacketReader {
    /// Reads a `T` from the payload of `packet`; `None` when the payload does not hold one.
    pub fn read<T: PacketLoad>(packet: &Packet) -> (r: Option<T>)
        ensures
            r == match T::decode_model(packet.payload@) {
                Ok(v) => Some(v),
                Err(_) => None::<T>,
            },
    {
        match T::from_packet_payload(&packet.payload) {
            Ok(v) => Some(v),
            Err(_) => None,
        }
    }
}

/// Where each field of a packet sits in its bytes: the kind in byte 0, the
/// length field big-endian in bytes 1..3, the payload from byte 3 on.
pub proof fn lemma_packet_layout(p: PacketModel)
    ensures
        ({
            let b = bytes_of_packet(p);
            &&& b.len() == 3 + p.payload.len()
            &&& b[0] == p.packet_type
            &&& be_value(b.subrange(1, 3)) == p.payload_len
            &&& b.subrange(3, b.len() as int) == p.payload
        }),
{
    let b = bytes_of_packet(p);
    lemma_u16_roundtrip(p.payload_len);
    assert(b.subrange(1, 3) =~= be_digits(p.payload_len as nat, 2));
    assert(b.subrange(3, b.len() as int) =~= p.payload);
}

} // verus!
