//! Mouse cursors and the payload they travel as.
use vstd::prelude::*;

use crate::bytes::{
    be_digits,
    be_value,
    lemma_be_digits_len,
    lemma_be_digits_of_value,
    lemma_be_value_bound,
    lemma_u32_roundtrip,
    pow256,
    u16_to_be_bytes,
    u32_from_be_bytes,
    u32_to_be_bytes,
    usize_to_be_bytes,
    usize_width,
};
use crate::packet::{
    packet_cursor_byte,
    packet_type_byte,
    PacketCursor,
    PacketError,
    PacketLoad,
    PacketType,
};

verus! {

/// A position on screen. Each coordinate is the bit pattern of an IEEE-754
/// single-precision number, as `f32::to_bits` gives it.
#[derive(Clone, Copy, Debug, PartialEq, Eq, Structural)]
pub struct Point {
    pub x: u32,
    pub y: u32,
}

/// A colour with red, green, blue and alpha channels.
#[derive(Clone, Copy, Debug, PartialEq, Eq, Structural)]
pub struct Color {
    pub r: u8,
    pub g: u8,
    pub b: u8,
    pub a: u8,
}

impl Color {
    /// An opaque colour: the given channels and full alpha.
    pub fn rgb(r: u8, g: u8, b: u8) -> (c: Color)
        ensures
            c == (Color { r, g, b, a: 0xff }),
    {
        Color { r, g, b, a: 0xff }
    }
}

/// A mouse cursor: where it is, whether its button is held, and its colour.
#[derive(Clone, Copy, Debug, PartialEq, Eq, Structural)]
pub struct MouseCursor {
    pub position: Point,
    pub pressed: bool,
    pub color: Color,
}

/// The lowest channel value a new cursor's colour can have.
pub const CHANNEL_LOW: u8 = 30;

/// One above the highest channel value a new cursor's colour can have.
pub const CHANNEL_HIGH: u8 = 210;

/// The number of payload bytes of a cursor.
pub const CURSOR_PAYLOAD_SIZE: usize = 13;

/// Whether a cursor is one that `MouseCursor::new` can make at `position`:
/// not pressed, opaque, and each colour channel in `CHANNEL_LOW..CHANNEL_HIGH`.
pub open spec fn is_fresh_cursor(c: MouseCursor, position: Point) -> bool {
    &&& c.position == position
    &&& !c.pressed
    &&& c.color.a == 0xff
    &&& CHANNEL_LOW <= c.color.r < CHANNEL_HIGH
    &&& CHANNEL_LOW <= c.color.g < CHANNEL_HIGH
    &&& CHANNEL_LOW <= c.color.b < CHANNEL_HIGH
}

/// Draws a number from fastrand's thread-local generator (`fastrand::u8`),
/// which lies in `low..high`; which one it is, is left to chance.
#[verifier::external_body]
fn random_u8(low: u8, high: u8) -> (r: u8)
    requires
        low < high,
    ensures
        low <= r < high,
{
    fastrand::u8(low..high)
}

/// The byte a button state is written as.
pub open spec fn pressed_byte(pressed: bool) -> u8 {
    if pressed {
        1
    } else {
        0
    }
}

/// The payload bytes of a cursor: both coordinates big-endian, the button
/// state, then the four colour channels.
pub open spec fn cursor_payload(c: MouseCursor) -> Seq<u8> {
    be_digits(c.position.x as nat, 4) + be_digits(c.position.y as nat, 4) + seq![
        pressed_byte(c.pressed),
        c.color.r,
        c.color.g,
        c.color.b,
        c.color.a,
    ]
}

/// What reading a cursor from a payload gives: an error naming the needed
/// and the actual length below thirteen bytes, else the cursor in the first
/// thirteen bytes (any nonzero button byte counts as pressed).
pub open spec fn decode_cursor(p: Seq<u8>) -> Result<MouseCursor, PacketError> {
    if p.len() < 13 {
        Err(PacketError::TooShort { expected: 13, got: p.len() as usize })
    } else {
        Ok(
            MouseCursor {
                position: Point {
                    x: be_value(p.subrange(0, 4)) as u32,
                    y: be_value(p.subrange(4, 8)) as u32,
                },
                pressed: p[8] != 0,
                color: Color { r: p[9], g: p[10], b: p[11], a: p[12] },
            },
        )
    }
}

impl MouseCursor {
    /// A new cursor at `position`, not pressed, with an opaque colour whose
    /// channels are drawn at random from `CHANNEL_LOW..CHANNEL_HIGH`.
    pub fn new(position: Point) -> (c: MouseCursor)
        ensures
            is_fresh_cursor(c, position),
    {
        let r: u8 = random_u8(CHANNEL_LOW, CHANNEL_HIGH);
        let g: u8 = random_u8(CHANNEL_LOW, CHANNEL_HIGH);
        let b: u8 = random_u8(CHANNEL_LOW, CHANNEL_HIGH);
        MouseCursor { position, pressed: false, color: Color::rgb(r, g, b) }
    }
}

impl PacketLoad for MouseCursor {
    open spec fn payload_model(&self) -> Seq<u8> {
        cursor_payload(*self)
    }

    open spec fn decode_model(payload: Seq<u8>) -> Result<MouseCursor, PacketError> {
        decode_cursor(payload)
    }

    open spec fn payload_size_model() -> nat {
        13
    }

    fn to_packet_payload(&self) -> (r: Vec<u8>) {
        let mut buffer: Vec<u8> = Vec::new();
        let mut x = u32_to_be_bytes(self.position.x);
        let mut y = u32_to_be_bytes(self.position.y);
        buffer.append(&mut x);
        buffer.append(&mut y);
        let pressed: u8 = if self.pressed {
            1
        } else {
            0
        };
        buffer.push(pressed);
        buffer.push(self.color.r);
        buffer.push(self.color.g);
        buffer.push(self.color.b);
        buffer.push(self.color.a);
        proof {
            assert(buffer@ =~= cursor_payload(*self));
        }
        buffer
    }

    fn from_packet_payload(payload: &Vec<u8>) -> (r: Result<MouseCursor, PacketError>) {
        if payload.len() < Self::payload_size() {
            return Err(PacketError::TooShort { expected: Self::payload_size(), got: payload.len() });
        }
        let x = u32_from_be_bytes(payload[0], payload[1], payload[2], payload[3]);
        let y = u32_from_be_bytes(payload[4], payload[5], payload[6], payload[7]);
        proof {
            assert(payload@.subrange(0, 4) =~= seq![payload@[0], payload@[1], payload@[2], payload@[3]]);
            assert(payload@.subrange(4, 8) =~= seq![payload@[4], payload@[5], payload@[6], payload@[7]]);
        }
        let pressed = payload[8] != 0x00;
        let r = payload[9];
        let g = payload[10];
        let b = payload[11];
        let a = payload[12];
        Ok(MouseCursor { position: Point { x, y }, pressed, color: Color { r, g, b, a } })
    }

    fn payload_size() -> (n: usize) {
        CURSOR_PAYLOAD_SIZE
    }
}

/// A cursor's payload is as long as `payload_size` says.
pub proof fn lemma_cursor_payload_len(c: MouseCursor)
    ensures
        cursor_payload(c).len() == 13,
{
    lemma_be_digits_len(c.position.x as nat, 4);
    lemma_be_digits_len(c.position.y as nat, 4);
}

/// Reading a cursor's payload gives the cursor back.
pub proof fn lemma_cursor_write_read(c: MouseCursor)
    ensures
        decode_cursor(cursor_payload(c)) == Ok::<MouseCursor, PacketError>(c),
{
    let p = cursor_payload(c);
    lemma_u32_roundtrip(c.position.x);
    lemma_u32_roundtrip(c.position.y);
    assert(p.subrange(0, 4) =~= be_digits(c.position.x as nat, 4));
    assert(p.subrange(4, 8) =~= be_digits(c.position.y as nat, 4));
}

/// Reading a cursor from a payload whose button byte is 0 or 1, and writing
/// it back, gives the first thirteen bytes of the payload.
pub proof fn lemma_cursor_read_write(p: Seq<u8>)
    requires
        p.len() >= 13,
        p[8] == 0 || p[8] == 1,
    ensures
        decode_cursor(p) matches Ok(c) && cursor_payload(c) == p.subrange(0, 13),
{
    let c = decode_cursor(p).unwrap();
    let xs = p.subrange(0, 4);
    let ys = p.subrange(4, 8);
    lemma_be_value_bound(xs);
    lemma_be_value_bound(ys);
    assert(pow256(4) == 0x1_0000_0000) by {
        reveal_with_fuel(pow256, 5);
    }
    lemma_be_digits_of_value(xs);
    lemma_be_digits_of_value(ys);
    assert(cursor_payload(c) =~= p.subrange(0, 13));
}

/// The datagram that announces a cursor's state under `id`: a cursor packet
/// whose length field is written over the full width of a `usize`, then the
/// update kind, the id big-endian, and the cursor's payload.
pub open spec fn cursor_update_datagram(id: u16, c: MouseCursor) -> Seq<u8> {
    seq![packet_type_byte(PacketType::Cursor)] + be_digits(16, usize_width()) + seq![
        packet_cursor_byte(PacketCursor::Update),
    ] + be_digits(id as nat, 2) + cursor_payload(c)
}

/// Builds the datagram that announces `cursor` under `id`.
pub fn cursor_update_message(id: u16, cursor: &MouseCursor) -> (r: Vec<u8>)
    ensures
        r@ == cursor_update_datagram(id, *cursor),
        r@.len() >= 13,
        decode_cursor(r@.subrange(r@.len() - 13, r@.len() as int)) == Ok::<MouseCursor, PacketError>(
            *cursor,
        ),
{
    proof {
        lemma_cursor_update_datagram(id, *cursor);
    }
    let mut buf: Vec<u8> = Vec::new();
    buf.push(PacketType::Cursor.to_byte());
    let mut len_bytes = usize_to_be_bytes(MouseCursor::payload_size() + 3);
    buf.append(&mut len_bytes);
    buf.push(PacketCursor::Update.to_byte());
    let mut id_bytes = u16_to_be_bytes(id);
    buf.append(&mut id_bytes);
    let mut payload = cursor.to_packet_payload();
    buf.append(&mut payload);
    proof {
        assert(buf@ =~= cursor_update_datagram(id, *cursor));
    }
    buf
}

/// What a cursor update datagram holds, read back field by field: a cursor
/// packet byte, the number 16 over the width of a `usize`, the update byte,
/// the id, and last the payload of the cursor itself, which reads back as
/// that very cursor, button state included.
pub proof fn lemma_cursor_update_datagram(id: u16, c: MouseCursor)
    ensures
        ({
            let d = cursor_update_datagram(id, c);
            let w = usize_width() as int;
            &&& d.len() == w + 17
            &&& d[0] == 0x01
            &&& be_value(d.subrange(1, 1 + w)) == 16
            &&& d[1 + w] == 0x01
            &&& be_value(d.subrange(2 + w, 4 + w)) == id
            &&& d.subrange(4 + w, 17 + w) == cursor_payload(c)
            &&& d.subrange(d.len() - 13, d.len() as int) == cursor_payload(c)
            &&& decode_cursor(d.subrange(d.len() - 13, d.len() as int)) == Ok::<
                MouseCursor,
                PacketError,
            >(c)
        }),
{
    let d = cursor_update_datagram(id, c);
    let w = usize_width();
    assert(w == 4 || w == 8);
    lemma_be_digits_len(16, w);
    lemma_be_digits_len(id as nat, 2);
    lemma_cursor_payload_len(c);
    crate::bytes::lemma_be_value_of_digits(16, w);
    crate::bytes::lemma_u16_roundtrip(id);
    assert(pow256(w) > 16) by {
        reveal_with_fuel(pow256, 9);
    }
    assert(d.len() == w + 17);
    assert(d[0] == 0x01);
    assert(d[1 + w as int] == 0x01);
    assert(d.subrange(1, 1 + w as int) =~= be_digits(16, w));
    vstd::arithmetic::div_mod::lemma_small_mod(16, pow256(w));
    assert(be_value(d.subrange(1, 1 + w as int)) == 16);
    assert(d.subrange(2 + w as int, 4 + w as int) =~= be_digits(id as nat, 2));
    assert(d.subrange(4 + w as int, 17 + w as int) =~= cursor_payload(c));
    assert(d.subrange(d.len() - 13, d.len() as int) =~= cursor_payload(c));
    lemma_cursor_write_read(c);
}

/// Where each field of a cursor sits in its payload: x in bytes 0..4 and y
/// in bytes 4..8, big-endian, the button as 1 or 0 in byte 8, then red,
/// green, blue and alpha.
pub proof fn lemma_cursor_payload_layout(c: MouseCursor)
    ensures
        ({
            let p = cursor_payload(c);
            &&& p.len() == 13
            &&& be_value(p.subrange(0, 4)) == c.position.x
            &&& be_value(p.subrange(4, 8)) == c.position.y
            &&& p[8] == (if c.pressed { 1u8 } else { 0u8 })
            &&& p[9] == c.color.r
            &&& p[10] == c.color.g
            &&& p[11] == c.color.b
            &&& p[12] == c.color.a
        }),
{
    let p = cursor_payload(c);
    lemma_cursor_payload_len(c);
    lemma_u32_roundtrip(c.position.x);
    lemma_u32_roundtrip(c.position.y);
    assert(p.subrange(0, 4) =~= be_digits(c.position.x as nat, 4));
    assert(p.subrange(4, 8) =~= be_digits(c.position.y as nat, 4));
}

} // verus!
