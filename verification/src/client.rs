//! The client side of a session: the cursors it knows and what it sends.
use std::collections::HashMap;
use vstd::prelude::*;

use crate::bytes::{be_value, u16_from_be_bytes};
use crate::cursor::{
    Color,
    cursor_update_datagram,
    cursor_update_message,
    decode_cursor,
    is_fresh_cursor,
    MouseCursor,
    Point,
};
use crate::packet::{
    frame_fits,
    packet_cursor_of,
    packet_of_bytes,
    packet_type_of,
    Packet,
    PacketCursor,
    PacketError,
    PacketLoad,
    PacketType,
};
use crate::table::{merge_cursor, merge_cursor_into};

verus! {

broadcast use vstd::std_specs::hash::group_hash_axioms;

/// A client's view of a session.
pub struct Client {
    /// Whether the client keeps going.
    pub running: bool,
    /// The id the server gave this client.
    pub online_id: u16,
    /// The other participants' cursors, by id.
    pub mouses: HashMap<u16, MouseCursor>,
    /// This client's own cursor.
    pub client_mouse: MouseCursor,
}

/// The mathematical value of a client.
pub struct ClientModel {
    pub running: bool,
    pub online_id: u16,
    pub mouses: Map<u16, MouseCursor>,
    pub client_mouse: MouseCursor,
}

impl View for Client {
    type V = ClientModel;

    open spec fn view(&self) -> ClientModel {
        ClientModel {
            running: self.running,
            online_id: self.online_id,
            mouses: self.mouses@,
            client_mouse: self.client_mouse,
        }
    }
}

/// What a client has to report after reading a datagram from the server.
#[derive(Debug)]
pub enum ClientNotice {
    /// Nothing to report.
    Quiet,
    /// The cursor in an update of the given packet kind could not be read.
    UnreadableCursor { packet_type: u8, error: PacketError },
    /// A cursor packet named a kind that is not known.
    UnknownCursorKind(u8),
}

/// An input event, as far as a client tells them apart.
#[derive(Debug, Clone, Copy, PartialEq, Eq, Structural)]
pub enum InputEvent {
    /// The window was closed or Escape was pressed.
    Quit,
    /// The mouse moved or a mouse button went down.
    Pointer,
    /// Anything else.
    Other,
}

/// What a client does about an input event.
#[derive(Debug)]
pub enum InputOutcome {
    /// Stop the session.
    Stop,
    /// Send these bytes to the server.
    Send(Vec<u8>),
    /// Nothing.
    Nothing,
}

/// The id in the two bytes of `payload` that start at `at`, big-endian.
pub open spec fn id_at(payload: Seq<u8>, at: int) -> u16 {
    be_value(payload.subrange(at, at + 2)) as u16
}

/// The cursor table of a client after a report for `id`: its own id is ignored.
pub open spec fn client_merge(m: ClientModel, id: u16, c: MouseCursor) -> Map<u16, MouseCursor> {
    if id == m.online_id {
        m.mouses
    } else {
        merge_cursor(m.mouses, id, c)
    }
}

/// A client with another cursor table.
pub open spec fn with_mouses(m: ClientModel, mouses: Map<u16, MouseCursor>) -> ClientModel {
    ClientModel { running: m.running, online_id: m.online_id, mouses, client_mouse: m.client_mouse }
}

/// Whether a client can read a datagram without running past the end of it:
/// the frame fits, and a cursor packet holds its kind byte, and for an update
/// the id and a whole cursor, for a removal the id.
pub open spec fn client_accepts(data: Seq<u8>) -> bool {
    &&& frame_fits(data)
    &&& match packet_of_bytes(data) {
        Some(p) => packet_type_of(p.packet_type) == Ok::<PacketType, u8>(PacketType::Cursor) ==> {
            &&& p.payload.len() >= 1
            &&& packet_cursor_of(p.payload[0]) == Ok::<PacketCursor, u8>(PacketCursor::Update)
                ==> p.payload.len() >= 16
            &&& packet_cursor_of(p.payload[0]) == Ok::<PacketCursor, u8>(PacketCursor::Delete)
                ==> p.payload.len() >= 3
        },
        None => true,
    }
}

/// What reading a datagram from the server does to a client, and what it reports.
///
/// Only cursor packets act: an update merges the cursor in bytes 3..16 of the
/// payload under the id in bytes 1..3 (not the client's own id), a removal
/// drops the id in bytes 1..3, and an unknown kind is reported. Datagrams too
/// short for a frame and other packet kinds change nothing.
pub open spec fn client_step(m: ClientModel, data: Seq<u8>) -> (ClientModel, ClientNotice) {
    match packet_of_bytes(data) {
        None => (m, ClientNotice::Quiet),
        Some(p) => if packet_type_of(p.packet_type) == Ok::<PacketType, u8>(PacketType::Cursor) {
            match packet_cursor_of(p.payload[0]) {
                Ok(PacketCursor::Update) => {
                    let id = id_at(p.payload, 1);
                    let c = decode_cursor(p.payload.subrange(3, 16))->Ok_0;
                    (with_mouses(m, client_merge(m, id, c)), ClientNotice::Quiet)
                },
                Ok(PacketCursor::Delete) => {
                    let id = id_at(p.payload, 1);
                    (with_mouses(m, m.mouses.remove(id)), ClientNotice::Quiet)
                },
                Err(kind) => (m, ClientNotice::UnknownCursorKind(kind)),
            }
        } else {
            (m, ClientNotice::Quiet)
        },
    }
}

/// The datagram a client sends to join: an acknowledge packet with one payload byte.
pub open spec fn handshake_datagram() -> Seq<u8> {
    seq![0xffu8, 0x00u8, 0x01u8, 0xffu8]
}

impl Client {
    /// The datagram that asks the server to join.
    pub fn handshake_request() -> (r: Vec<u8>)
        ensures
            r@ == handshake_datagram(),
    {
        let mut bytes: Vec<u8> = Vec::new();
        bytes.push(PacketType::Acknowledge.to_byte());
        bytes.push(0x00);
        bytes.push(0x01);
        bytes.push(0xff);
        proof {
            crate::bytes::lemma_be_value_two(0, 1);
            assert(bytes@.subrange(1, 3) =~= seq![0u8, 1u8]);
            assert(bytes@ =~= handshake_datagram());
        }
        let packet = Packet::from_bytes(bytes);
        let packet = packet.unwrap();
        let r = packet.to_bytes();
        proof {
            crate::packet::lemma_packet_read_write(handshake_datagram());
            assert(handshake_datagram().subrange(0, 4) =~= handshake_datagram());
        }
        r
    }

    /// A client that has joined: the id is read from bytes 1..3 of the
    /// server's reply, no other cursors are known yet, and its own cursor is
    /// a fresh one at the origin.
    pub fn connect(reply: &[u8]) -> (c: Client)
        requires
            reply@.len() >= 3,
        ensures
            c.running,
            c.online_id == id_at(reply@, 1),
            c.mouses@ == Map::<u16, MouseCursor>::empty(),
            is_fresh_cursor(c.client_mouse, Point { x: 0, y: 0 }),
    {
        let online_id = u16_from_be_bytes(reply[1], reply[2]);
        proof {
            assert(reply@.subrange(1, 3) =~= seq![reply@[1], reply@[2]]);
        }
        Client {
            running: true,
            online_id,
            mouses: HashMap::new(),
            client_mouse: MouseCursor::new(Point { x: 0, y: 0 }),
        }
    }

    /// Whether a datagram can be read (see `client_accepts`).
    pub fn accepts(data: &Vec<u8>) -> (r: bool)
        ensures
            r == client_accepts(data@),
    {
        if data.len() < 3 {
            return true;
        }
        let payload_len = u16_from_be_bytes(data[1], data[2]);
        proof {
            assert(data@.subrange(1, 3) =~= seq![data@[1], data@[2]]);
        }
        if data.len() - 3 < payload_len as usize {
            return false;
        }
        if data[0] != PacketType::Cursor.to_byte() {
            return true;
        }
        if payload_len < 1 {
            return false;
        }
        let kind = data[3];
        if kind == PacketCursor::Update.to_byte() {
            payload_len >= 16
        } else if kind == PacketCursor::Delete.to_byte() {
            payload_len >= 3
        } else {
            true
        }
    }

    /// Reads a datagram from the server and applies it (see `client_step`).
    pub fn interpret_server_packet(&mut self, data: Vec<u8>) -> (n: ClientNotice)
        requires
            client_accepts(data@),
        ensures
            (final(self)@, n) == client_step(old(self)@, data@),
    {
        let ghost bytes = data@;
        let packet = match Packet::from_bytes(data) {
            Some(packet) => packet,
            None => return ClientNotice::Quiet,
        };
        match PacketType::try_from(packet.packet_type) {
            Ok(PacketType::Cursor) => {
                let payload = packet.payload;
                match PacketCursor::try_from(payload[0]) {
                    Ok(PacketCursor::Update) => {
                        let cursor_id = u16_from_be_bytes(payload[1], payload[2]);
                        proof {
                            assert(payload@.subrange(1, 3) =~= seq![payload@[1], payload@[2]]);
                        }
                        let size = MouseCursor::payload_size();
                        let cursor_bytes = vstd::slice::slice_to_vec(
                            vstd::slice::slice_subrange(payload.as_slice(), 3, 3 + size),
                        );
                        let cursor = match MouseCursor::from_packet_payload(&cursor_bytes) {
                            Ok(cursor) => cursor,
                            Err(error) => return ClientNotice::UnreadableCursor {
                                packet_type: packet.packet_type,
                                error,
                            },
                        };
                        self.update_or_add_cursor(cursor_id, cursor);
                        ClientNotice::Quiet
                    },
                    Ok(PacketCursor::Delete) => {
                        let cursor_id = u16_from_be_bytes(payload[1], payload[2]);
                        proof {
                            assert(payload@.subrange(1, 3) =~= seq![payload@[1], payload@[2]]);
                        }
                        self.remove_cursor(cursor_id);
                        ClientNotice::Quiet
                    },
                    Err(kind) => ClientNotice::UnknownCursorKind(kind),
                }
            },
            _ => ClientNotice::Quiet,
        }
    }

    /// Applies a cursor report for `id`, unless `id` is the client's own.
    pub fn update_or_add_cursor(&mut self, id: u16, cursor: MouseCursor)
        ensures
            final(self)@ == with_mouses(old(self)@, client_merge(old(self)@, id, cursor)),
    {
        if id == self.online_id {
            return ;
        }
        merge_cursor_into(&mut self.mouses, id, cursor);
    }

    /// Forgets the cursor with `id`.
    pub fn remove_cursor(&mut self, id: u16)
        ensures
            final(self)@ == with_mouses(old(self)@, old(self)@.mouses.remove(id)),
    {
        self.mouses.remove(&id);
    }

    /// Moves the client's own cursor and sets its button state.
    pub fn track_pointer(&mut self, position: Point, pressed: bool)
        ensures
            final(self).running == old(self).running,
            final(self).online_id == old(self).online_id,
            final(self).mouses@ == old(self).mouses@,
            final(self).client_mouse == (MouseCursor {
                position,
                pressed,
                color: old(self).client_mouse.color,
            }),
    {
        self.client_mouse.position = position;
        self.client_mouse.pressed = pressed;
    }

    /// Handles an input event: quitting stops the client, pointer activity
    /// sends the client's own cursor to the server under its id, and anything
    /// else does nothing.
    pub fn handle_input(&mut self, event: InputEvent) -> (r: InputOutcome)
        ensures
            final(self).online_id == old(self).online_id,
            final(self).mouses@ == old(self).mouses@,
            final(self).client_mouse == old(self).client_mouse,
            final(self).running == (old(self).running && event != InputEvent::Quit),
            match event {
                InputEvent::Quit => r is Stop,
                InputEvent::Pointer => r matches InputOutcome::Send(bytes) && bytes@
                    == cursor_update_datagram(old(self).online_id, old(self).client_mouse),
                InputEvent::Other => r is Nothing,
            },
            r matches InputOutcome::Send(bytes) ==> bytes@.len() >= 13 && decode_cursor(
                bytes@.subrange(bytes@.len() - 13, bytes@.len() as int),
            ) == Ok::<MouseCursor, PacketError>(old(self).client_mouse),
    {
        proof {
            crate::cursor::lemma_cursor_update_datagram(self.online_id, self.client_mouse);
        }
        match event {
            InputEvent::Quit => {
                self.running = false;
                InputOutcome::Stop
            },
            InputEvent::Pointer => InputOutcome::Send(
                cursor_update_message(self.online_id, &self.client_mouse),
            ),
            InputEvent::Other => InputOutcome::Nothing,
        }
    }

    /// Whether the client keeps going.
    pub fn is_running(&self) -> (r: bool)
        ensures
            r == self.running,
    {
        self.running
    }
}

/// Whether a client never holds a cursor under its own id.
pub open spec fn client_wf(m: ClientModel) -> bool {
    !m.mouses.contains_key(m.online_id)
}

/// Reading datagrams keeps a client from ever holding a cursor under its own id.
pub proof fn lemma_client_step_keeps_own_id_out(m: ClientModel, data: Seq<u8>)
    requires
        client_wf(m),
    ensures
        client_wf(client_step(m, data).0),
        client_step(m, data).0.online_id == m.online_id,
        client_step(m, data).0.running == m.running,
        client_step(m, data).0.client_mouse == m.client_mouse,
{
}

/// The payload of the frame in `data` and the facts a client's reading of a
/// cursor packet rests on: kind byte at 0, payload from byte 3, cursor kind
/// at byte 3 and the id in bytes 4..6.
pub(crate) proof fn lemma_cursor_frame(data: Seq<u8>)
    requires
        frame_fits(data),
        data.len() >= 4,
    ensures
        packet_of_bytes(data) matches Some(p) && p.packet_type == data[0] && p.payload
            == data.subrange(3, 3 + p.payload_len as int) && (p.payload.len() >= 1 ==> p.payload[0]
            == data[3]) && (p.payload.len() >= 3 ==> id_at(p.payload, 1) == be_value(
            data.subrange(4, 6),
        ) as u16 && p.payload.subrange(1, 3) == data.subrange(4, 6)) && (p.payload.len() >= 4
            ==> id_at(p.payload, 2) == be_value(data.subrange(5, 7)) as u16) && (p.payload.len()
            >= 16 ==> p.payload.subrange(3, 16) == data.subrange(6, 19)),
{
    crate::packet::lemma_packet_read_write(data);
    let p = packet_of_bytes(data).unwrap();
    if p.payload.len() >= 3 {
        assert(p.payload.subrange(1, 3) =~= data.subrange(4, 6));
    }
    if p.payload.len() >= 4 {
        assert(p.payload.subrange(2, 4) =~= data.subrange(5, 7));
    }
    if p.payload.len() >= 16 {
        assert(p.payload.subrange(3, 16) =~= data.subrange(6, 19));
    }
}

/// A client that reads the server's removal of the cursor whose id is in
/// bytes 4..6 forgets that cursor, and every other cursor it holds, and
/// every cursor it does not hold, stays as it was.
pub proof fn lemma_client_delete_only_removes_named(m: ClientModel, data: Seq<u8>)
    requires
        client_accepts(data),
        data.len() >= 4,
        data[0] == 0x01,
        data[3] == 0x02,
    ensures
        ({
            let k = be_value(data.subrange(4, 6)) as u16;
            let (m2, n) = client_step(m, data);
            &&& !m2.mouses.contains_key(k)
            &&& forall|j: u16|
                j != k ==> (#[trigger] m2.mouses.contains_key(j) == m.mouses.contains_key(j)) && (
                m.mouses.contains_key(j) ==> m2.mouses[j] == m.mouses[j])
            &&& m2.online_id == m.online_id
            &&& m2.running == m.running
            &&& m2.client_mouse == m.client_mouse
            &&& n is Quiet
        }),
{
    lemma_cursor_frame(data);
}

/// A client that reads the server's update of the cursor whose id `k` is in
/// bytes 4..6 (not its own) holds `k` at the position and button state in
/// bytes 6..15, with the colour it had, or the colour in bytes 15..19 for a
/// cursor it did not know. Every other entry of its table stays as it was,
/// and an update of its own id changes nothing.
pub proof fn lemma_client_update_touches_only_named(m: ClientModel, data: Seq<u8>)
    requires
        client_accepts(data),
        data.len() >= 4,
        data[0] == 0x01,
        data[3] == 0x01,
    ensures
        ({
            let k = be_value(data.subrange(4, 6)) as u16;
            let (m2, n) = client_step(m, data);
            &&& forall|j: u16|
                j != k ==> (#[trigger] m2.mouses.contains_key(j) == m.mouses.contains_key(j)) && (
                m.mouses.contains_key(j) ==> m2.mouses[j] == m.mouses[j])
            &&& k == m.online_id ==> m2.mouses == m.mouses
            &&& k != m.online_id ==> {
                &&& m2.mouses.contains_key(k)
                &&& m2.mouses[k].position.x == be_value(data.subrange(6, 10))
                &&& m2.mouses[k].position.y == be_value(data.subrange(10, 14))
                &&& m2.mouses[k].pressed == (data[14] != 0)
                &&& m.mouses.contains_key(k) ==> m2.mouses[k].color == m.mouses[k].color
                &&& !m.mouses.contains_key(k) ==> m2.mouses[k].color == (Color {
                    r: data[15],
                    g: data[16],
                    b: data[17],
                    a: data[18],
                })
            }
            &&& m2.online_id == m.online_id
            &&& m2.running == m.running
            &&& m2.client_mouse == m.client_mouse
            &&& n is Quiet
        }),
{
    lemma_cursor_frame(data);
    let p = packet_of_bytes(data).unwrap();
    let q = data.subrange(6, 19);
    assert(q.subrange(0, 4) =~= data.subrange(6, 10));
    assert(q.subrange(4, 8) =~= data.subrange(10, 14));
    crate::bytes::lemma_be_value_bound(data.subrange(6, 10));
    crate::bytes::lemma_be_value_bound(data.subrange(10, 14));
    assert(crate::bytes::pow256(4) == 0x1_0000_0000) by {
        reveal_with_fuel(crate::bytes::pow256, 5);
    }
}

/// A datagram that is not a cursor packet leaves a client as it was.
pub proof fn lemma_client_ignores_other_packets(m: ClientModel, data: Seq<u8>)
    requires
        client_accepts(data),
        data.len() < 3 || data[0] != 0x01,
    ensures
        client_step(m, data) == (m, ClientNotice::Quiet),
{
}

} // verus!
