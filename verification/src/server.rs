//! The server side of a session: who has joined, the cursors it knows, and
//! what it sends in answer to each datagram.
use std::collections::HashMap;
use vstd::prelude::*;

use crate::bytes::{be_digits, be_value, u16_from_be_bytes, u16_to_be_bytes};
use crate::client::{handshake_datagram, id_at, lemma_cursor_frame};
use crate::cursor::{
    cursor_update_datagram,
    cursor_update_message,
    decode_cursor,
    is_fresh_cursor,
    Color,
    MouseCursor,
    Point,
    CHANNEL_LOW,
};
use crate::packet::{
    bytes_of_packet,
    frame_fits,
    packet_cursor_of,
    packet_of_bytes,
    packet_type_of,
    Packet,
    PacketCursor,
    PacketLoad,
    PacketModel,
    PacketType,
};
use crate::table::{entries, enumerates, merge_cursor, merge_cursor_into};

verus! {

broadcast use vstd::std_specs::hash::group_hash_axioms;

/// A server's state. `A` is the caller's type of network address: the server
/// keeps one per client and hands it back in the actions it asks for.
pub struct Server<A> {
    running: bool,
    clients: HashMap<u16, A>,
    next_client_id: u16,
    mouses: HashMap<u16, MouseCursor>,
}

/// The mathematical value of a server.
pub struct ServerModel<A> {
    pub running: bool,
    pub clients: Map<u16, A>,
    pub next_client_id: u16,
    pub mouses: Map<u16, MouseCursor>,
}

impl<A> View for Server<A> {
    type V = ServerModel<A>;

    closed spec fn view(&self) -> ServerModel<A> {
        ServerModel {
            running: self.running,
            clients: self.clients@,
            next_client_id: self.next_client_id,
            mouses: self.mouses@,
        }
    }
}

/// Something the server asks its caller to do.
#[derive(Debug)]
pub enum ServerAction<A> {
    /// Answer a joining client with `bytes` at the address `to`; the session
    /// cannot go on if this fails.
    Reply { bytes: Vec<u8>, to: A },
    /// Send `bytes` to the address `to`.
    Send { bytes: Vec<u8>, to: A },
    /// Show a cursor packet that is being relayed.
    ShowPacket(Packet),
    /// Report a cursor packet of a kind that is not known.
    UnknownCursorKind(u8),
}

/// The mathematical value of a server action.
pub enum ActionModel<A> {
    Reply(Seq<u8>, A),
    Send(Seq<u8>, A),
    ShowPacket(PacketModel),
    UnknownCursorKind(u8),
}

impl<A> View for ServerAction<A> {
    type V = ActionModel<A>;

    open spec fn view(&self) -> ActionModel<A> {
        match self {
            ServerAction::Reply { bytes, to } => ActionModel::Reply(bytes@, *to),
            ServerAction::Send { bytes, to } => ActionModel::Send(bytes@, *to),
            ServerAction::ShowPacket(p) => ActionModel::ShowPacket(p@),
            ServerAction::UnknownCursorKind(k) => ActionModel::UnknownCursorKind(*k),
        }
    }
}

/// The values of a list of actions.
pub open spec fn actions_model<A>(actions: Seq<ServerAction<A>>) -> Seq<ActionModel<A>> {
    actions.map_values(|a: ServerAction<A>| a@)
}

/// The reply that tells a joining client its id: `0xff` then the id big-endian.
pub open spec fn ack_datagram(id: u16) -> Seq<u8> {
    seq![0xffu8] + be_digits(id as nat, 2)
}

/// One cursor announcement to `to` for each entry of `order`, in that order.
pub open spec fn announcements<A>(order: Seq<(u16, MouseCursor)>, to: A) -> Seq<ActionModel<A>> {
    order.map_values(|e: (u16, MouseCursor)| ActionModel::Send(cursor_update_datagram(e.0, e.1), to))
}

/// One send of `bytes` to each client of `order`, in that order, leaving out the client `skip`.
pub open spec fn relays<A>(order: Seq<(u16, A)>, skip: u16, bytes: Seq<u8>) -> Seq<ActionModel<A>>
    decreases order.len(),
{
    if order.len() == 0 {
        Seq::empty()
    } else {
        let rest = relays(order.drop_last(), skip, bytes);
        if order.last().0 == skip {
            rest
        } else {
            rest.push(ActionModel::Send(bytes, order.last().1))
        }
    }
}

/// A server with another cursor table.
pub open spec fn with_cursors<A>(m: ServerModel<A>, mouses: Map<u16, MouseCursor>) -> ServerModel<A> {
    ServerModel {
        running: m.running,
        clients: m.clients,
        next_client_id: m.next_client_id,
        mouses,
    }
}

/// Whether a server can handle a datagram without running past its end or
/// running out of ids: the frame fits, a join needs a next id below 65535,
/// and a cursor packet needs its kind, id and a whole cursor (16 bytes).
pub open spec fn server_accepts<A>(m: ServerModel<A>, data: Seq<u8>) -> bool {
    &&& frame_fits(data)
    &&& match packet_of_bytes(data) {
        Some(p) => {
            &&& packet_type_of(p.packet_type) == Ok::<PacketType, u8>(PacketType::Acknowledge)
                ==> m.next_client_id < 65535
            &&& packet_type_of(p.packet_type) == Ok::<PacketType, u8>(PacketType::Cursor)
                ==> p.payload.len() >= 16
        },
        None => true,
    }
}

/// How handling a datagram from `origin` takes a server from `m` to `m2`
/// with the actions `acts`, where `joiner` is the cursor a joining client gets.
///
/// - A join (acknowledge packet) registers `origin` under the next id, gives
///   it the cursor `joiner`, answers with the id, announces every cursor the
///   server then knows to `origin` (in the order of the cursor table), and
///   moves the next id on by one.
/// - A cursor update merges the cursor in bytes 3..16 of the payload under the
///   id in bytes 1..3, shows the packet, and relays it to every client but the
///   one of that id (in the order of the client table).
/// - A cursor removal drops the cursor whose id is in bytes 2..4.
/// - A cursor packet of another kind is reported.
/// - Anything else changes nothing and asks for nothing.
pub open spec fn server_step<A>(
    m: ServerModel<A>,
    data: Seq<u8>,
    origin: A,
    joiner: MouseCursor,
    m2: ServerModel<A>,
    acts: Seq<ActionModel<A>>,
) -> bool {
    match packet_of_bytes(data) {
        None => m2 == m && acts.len() == 0,
        Some(p) => match packet_type_of(p.packet_type) {
            Ok(PacketType::Acknowledge) => {
                let id = m.next_client_id;
                let mouses = m.mouses.insert(id, joiner);
                &&& m2 == ServerModel {
                    running: m.running,
                    clients: m.clients.insert(id, origin),
                    next_client_id: (id + 1) as u16,
                    mouses,
                }
                &&& acts.len() >= 1
                &&& acts[0] == ActionModel::Reply(ack_datagram(id), origin)
                &&& exists|order: Seq<(u16, MouseCursor)>|
                    enumerates(order, mouses) && acts.drop_first() == #[trigger] announcements(
                        order,
                        origin,
                    )
            },
            Ok(PacketType::Cursor) => {
                let from = id_at(p.payload, 1);
                let c = decode_cursor(p.payload.subrange(3, 16))->Ok_0;
                match packet_cursor_of(p.payload[0]) {
                    Ok(PacketCursor::Update) => {
                        &&& m2 == with_cursors(m, merge_cursor(m.mouses, from, c))
                        &&& acts.len() >= 1
                        &&& acts[0] == ActionModel::<A>::ShowPacket(p)
                        &&& exists|order: Seq<(u16, A)>|
                            enumerates(order, m.clients) && acts.drop_first() == #[trigger] relays(
                                order,
                                from,
                                bytes_of_packet(p),
                            )
                    },
                    Ok(PacketCursor::Delete) => m2 == with_cursors(
                        m,
                        m.mouses.remove(id_at(p.payload, 2)),
                    ) && acts.len() == 0,
                    Err(kind) => m2 == m && acts == seq![ActionModel::<A>::UnknownCursorKind(kind)],
                }
            },
            _ => m2 == m && acts.len() == 0,
        },
    }
}

impl<A: Copy> Server<A> {
    /// A running server with no clients, no cursors, and 0 as the next id.
    pub fn new() -> (s: Server<A>)
        ensures
            s@ == (ServerModel::<A> {
                running: true,
                clients: Map::empty(),
                next_client_id: 0,
                mouses: Map::empty(),
            }),
    {
        Server { running: true, clients: HashMap::new(), next_client_id: 0, mouses: HashMap::new() }
    }

    /// Whether the server can handle `data` (see `server_accepts`).
    pub fn accepts(&self, data: &Vec<u8>) -> (r: bool)
        ensures
            r == server_accepts(self@, data@),
    {
        if data.len() < 3 {
            return true;
        }
        let payload_len = u16_from_be_bytes(data[1], data[2]);
        proof {
            assert(data@.subrange(1, 3) =~= seq![data@[1], data@[2]]);
        }
        if data.len() - 3 < payload_len as usize {
            return false;
        }
        match PacketType::try_from(data[0]) {
            Ok(PacketType::Acknowledge) => self.next_client_id < 65535,
            Ok(PacketType::Cursor) => payload_len >= 16,
            _ => true,
        }
    }

    /// Registers `origin` as a new client with the cursor `joiner`: answers
    /// with its id, announces every known cursor to it, and moves the next id on.
    fn welcome(&mut self, origin: A, joiner: MouseCursor) -> (r: Vec<ServerAction<A>>)
        requires
            old(self)@.next_client_id < 65535,
        ensures
            ({
                let m = old(self)@;
                let id = m.next_client_id;
                let mouses = m.mouses.insert(id, joiner);
                let acts = actions_model(r@);
                &&& final(self)@ == ServerModel {
                    running: m.running,
                    clients: m.clients.insert(id, origin),
                    next_client_id: (id + 1) as u16,
                    mouses,
                }
                &&& acts.len() >= 1
                &&& acts[0] == ActionModel::Reply(ack_datagram(id), origin)
                &&& exists|order: Seq<(u16, MouseCursor)>|
                    enumerates(order, mouses) && acts.drop_first() == #[trigger] announcements(
                        order,
                        origin,
                    )
            }),
    {
        let id = self.next_client_id;
        self.clients.insert(id, origin);
        let mut reply: Vec<u8> = Vec::new();
        reply.push(0xff);
        let mut id_bytes = u16_to_be_bytes(id);
        reply.append(&mut id_bytes);
        let mut actions: Vec<ServerAction<A>> = Vec::new();
        actions.push(ServerAction::Reply { bytes: reply, to: origin });
        self.mouses.insert(id, joiner);
        let known = entries(&self.mouses);
        let mut i: usize = 0;
        while i < known.len()
            invariant
                i <= known@.len(),
                actions@.len() == i + 1,
                actions_model(actions@)[0] == ActionModel::Reply(ack_datagram(id), origin),
                actions_model(actions@).drop_first() == announcements(known@.subrange(0, i as int), origin),
            decreases known@.len() - i,
        {
            let (mid, mouse) = known[i];
            let bytes = cursor_update_message(mid, &mouse);
            let ghost before = actions_model(actions@);
            actions.push(ServerAction::Send { bytes, to: origin });
            i = i + 1;
            proof {
                assert(actions_model(actions@) =~= before.push(ActionModel::Send(cursor_update_datagram(mid, mouse), origin)));
                assert(announcements(known@.subrange(0, i as int), origin) =~= announcements(
                    known@.subrange(0, (i - 1) as int),
                    origin,
                ).push(ActionModel::Send(cursor_update_datagram(mid, mouse), origin)));
                assert(actions_model(actions@).drop_first() =~= announcements(known@.subrange(0, i as int), origin));
            }
        }
        self.next_client_id = id + 1;
        proof {
            assert(known@.subrange(0, i as int) =~= known@);
            assert(actions_model(actions@).len() >= 1);
        }
        actions
    }

    /// One send of `bytes` to each client but the one with id `skip`.
    fn relay(&self, skip: u16, bytes: &Vec<u8>) -> (r: Vec<ServerAction<A>>)
        ensures
            exists|order: Seq<(u16, A)>|
                enumerates(order, self@.clients) && actions_model(r@) == #[trigger] relays(
                    order,
                    skip,
                    bytes@,
                ),
    {
        let targets = entries(&self.clients);
        let mut actions: Vec<ServerAction<A>> = Vec::new();
        let mut i: usize = 0;
        while i < targets.len()
            invariant
                i <= targets@.len(),
                actions_model(actions@) == relays(targets@.subrange(0, i as int), skip, bytes@),
            decreases targets@.len() - i,
        {
            let (client_id, address) = targets[i];
            let ghost before = actions_model(actions@);
            if client_id != skip {
                let copy = vstd::slice::slice_to_vec(bytes.as_slice());
                actions.push(ServerAction::Send { bytes: copy, to: address });
                proof {
                    assert(actions_model(actions@) =~= before.push(ActionModel::Send(bytes@, address)));
                }
            }
            i = i + 1;
            proof {
                assert(targets@.subrange(0, i as int).drop_last() =~= targets@.subrange(0, (i - 1) as int));
            }
        }
        proof {
            assert(targets@.subrange(0, i as int) =~= targets@);
        }
        actions
    }

    /// Handles a datagram from `origin`, giving a joining client the cursor
    /// `joiner` (see `server_step`).
    pub fn receive(&mut self, data: Vec<u8>, origin: A, joiner: MouseCursor) -> (r: Vec<ServerAction<A>>)
        requires
            server_accepts(old(self)@, data@),
        ensures
            server_step(old(self)@, data@, origin, joiner, final(self)@, actions_model(r@)),
    {
        let packet: Packet = match Packet::from_bytes(data) {
            Some(packet) => packet,
            None => return Vec::new(),
        };
        match PacketType::try_from(packet.packet_type) {
            Ok(PacketType::Acknowledge) => self.welcome(origin, joiner),
            Ok(PacketType::Cursor) => {
                let cursor_type: u8 = packet.payload[0];
                let origin_client_id: u16 = u16_from_be_bytes(packet.payload[1], packet.payload[2]);
                proof {
                    assert(packet.payload@.subrange(1, 3) =~= seq![packet.payload@[1], packet.payload@[2]]);
                }
                let size = MouseCursor::payload_size();
                let cursor_bytes = vstd::slice::slice_to_vec(
                    vstd::slice::slice_subrange(packet.payload.as_slice(), 3, 3 + size),
                );
                let mouse_data = MouseCursor::from_packet_payload(&cursor_bytes).unwrap();
                match PacketCursor::try_from(cursor_type) {
                    Ok(PacketCursor::Update) => {
                        self.update_or_add_cursor(origin_client_id, mouse_data);
                        let packet_data = packet.to_bytes();
                        let mut actions: Vec<ServerAction<A>> = Vec::new();
                        actions.push(ServerAction::ShowPacket(packet));
                        let mut sends = self.relay(origin_client_id, &packet_data);
                        let ghost first = actions_model(actions@);
                        let ghost rest = actions_model(sends@);
                        actions.append(&mut sends);
                        proof {
                            assert(actions_model(actions@) =~= first + rest);
                            assert(actions_model(actions@).drop_first() =~= rest);
                        }
                        actions
                    },
                    Ok(PacketCursor::Delete) => {
                        let cursor_id = u16_from_be_bytes(packet.payload[2], packet.payload[3]);
                        proof {
                            assert(packet.payload@.subrange(2, 4) =~= seq![packet.payload@[2], packet.payload@[3]]);
                        }
                        self.remove_cursor(cursor_id);
                        Vec::new()
                    },
                    Err(kind) => {
                        let mut actions: Vec<ServerAction<A>> = Vec::new();
                        actions.push(ServerAction::UnknownCursorKind(kind));
                        proof {
                            assert(actions_model(actions@) =~= seq![ActionModel::<A>::UnknownCursorKind(kind)]);
                        }
                        actions
                    },
                }
            },
            _ => Vec::new(),
        }
    }

    /// Handles a datagram from `origin`; a joining client gets a fresh cursor
    /// at the origin of the screen, with a colour drawn at random.
    pub fn update(&mut self, data: Vec<u8>, origin: A) -> (r: Vec<ServerAction<A>>)
        requires
            server_accepts(old(self)@, data@),
        ensures
            exists|joiner: MouseCursor|
                is_fresh_cursor(joiner, Point { x: 0, y: 0 }) && #[trigger] server_step(
                    old(self)@,
                    data@,
                    origin,
                    joiner,
                    final(self)@,
                    actions_model(r@),
                ),
    {
        let start = Point { x: 0, y: 0 };
        let joins = data.len() >= 3 && data[0] == 0xff;
        let joiner = if joins {
            MouseCursor::new(start)
        } else {
            MouseCursor {
                position: start,
                pressed: false,
                color: Color::rgb(CHANNEL_LOW, CHANNEL_LOW, CHANNEL_LOW),
            }
        };
        self.receive(data, origin, joiner)
    }

    /// Applies a cursor report for `id`.
    pub fn update_or_add_cursor(&mut self, id: u16, cursor: MouseCursor)
        ensures
            final(self)@ == with_cursors(old(self)@, merge_cursor(old(self)@.mouses, id, cursor)),
    {
        merge_cursor_into(&mut self.mouses, id, cursor);
    }

    /// Forgets the cursor with `id`.
    pub fn remove_cursor(&mut self, id: u16)
        ensures
            final(self)@ == with_cursors(old(self)@, old(self)@.mouses.remove(id)),
    {
        self.mouses.remove(&id);
    }

    /// The id the next joining client gets.
    pub fn next_client_id(&self) -> (r: u16)
        ensures
            r == self@.next_client_id,
    {
        self.next_client_id
    }

    /// The cursor the server holds under `id`, if any.
    pub fn cursor(&self, id: u16) -> (r: Option<MouseCursor>)
        ensures
            r == (if self@.mouses.contains_key(id) {
                Some(self@.mouses[id])
            } else {
                None
            }),
    {
        match self.mouses.get(&id) {
            Some(c) => Some(*c),
            None => None,
        }
    }

    /// The address of the client registered under `id`, if any.
    pub fn client_address(&self, id: u16) -> (r: Option<A>)
        ensures
            r == (if self@.clients.contains_key(id) {
                Some(self@.clients[id])
            } else {
                None
            }),
    {
        match self.clients.get(&id) {
            Some(a) => Some(*a),
            None => None,
        }
    }

    /// Whether the server keeps going.
    pub fn is_running(&self) -> (r: bool)
        ensures
            r == self@.running,
    {
        self.running
    }
}

} // verus!

verus! {

/// Whether every registered client has an id below the next id to give out.
pub open spec fn server_wf<A>(m: ServerModel<A>) -> bool {
    forall|k: u16| #[trigger] m.clients.contains_key(k) ==> k < m.next_client_id
}

/// A new server gives out ids from scratch.
pub proof fn lemma_new_server_wf<A>()
    ensures
        server_wf(
            ServerModel::<A> {
                running: true,
                clients: Map::empty(),
                next_client_id: 0,
                mouses: Map::empty(),
            },
        ),
{
}

/// Handling any datagram keeps every registered id below the next id to give
/// out; so a joining client always gets an id no other client holds, and the
/// next id never goes back.
pub proof fn lemma_server_step_keeps_ids_fresh<A>(
    m: ServerModel<A>,
    data: Seq<u8>,
    origin: A,
    joiner: MouseCursor,
    m2: ServerModel<A>,
    acts: Seq<ActionModel<A>>,
)
    requires
        server_wf(m),
        server_accepts(m, data),
        server_step(m, data, origin, joiner, m2, acts),
    ensures
        server_wf(m2),
        m2.next_client_id >= m.next_client_id,
        m2.running == m.running,
        packet_of_bytes(data) matches Some(p) && packet_type_of(p.packet_type) == Ok::<
            PacketType,
            u8,
        >(PacketType::Acknowledge) ==> !m.clients.contains_key(m.next_client_id)
            && m2.clients.contains_key(m.next_client_id) && m2.next_client_id == m.next_client_id
            + 1,
{
}

/// The join request a client sends is read by a server as a join, which it
/// can handle while ids remain; and the id the server answers with is the id
/// the client reads from the answer.
pub proof fn lemma_join_handshake<A>(m: ServerModel<A>)
    ensures
        packet_of_bytes(handshake_datagram()) matches Some(p) && packet_type_of(p.packet_type)
            == Ok::<PacketType, u8>(PacketType::Acknowledge),
        m.next_client_id < 65535 ==> server_accepts(m, handshake_datagram()),
        ack_datagram(m.next_client_id).len() >= 3,
        id_at(ack_datagram(m.next_client_id), 1) == m.next_client_id,
{
    let h = handshake_datagram();
    crate::bytes::lemma_be_value_two(0, 1);
    assert(h.subrange(1, 3) =~= seq![0u8, 1u8]);
    let a = ack_datagram(m.next_client_id);
    crate::bytes::lemma_u16_roundtrip(m.next_client_id);
    assert(a.subrange(1, 3) =~= be_digits(m.next_client_id as nat, 2));
}

/// What `server_step` says of a join, once the packet is known to be one.
proof fn lemma_join_step_shape<A>(
    m: ServerModel<A>,
    data: Seq<u8>,
    origin: A,
    joiner: MouseCursor,
    m2: ServerModel<A>,
    acts: Seq<ActionModel<A>>,
)
    requires
        server_step(m, data, origin, joiner, m2, acts),
        packet_of_bytes(data) is Some,
        packet_type_of(packet_of_bytes(data)->Some_0.packet_type) == Ok::<PacketType, u8>(
            PacketType::Acknowledge,
        ),
    ensures
        ({
            let id = m.next_client_id;
            let mouses = m.mouses.insert(id, joiner);
            &&& m2 == ServerModel {
                running: m.running,
                clients: m.clients.insert(id, origin),
                next_client_id: (id + 1) as u16,
                mouses,
            }
            &&& acts.len() >= 1
            &&& acts[0] == ActionModel::Reply(ack_datagram(id), origin)
            &&& exists|order: Seq<(u16, MouseCursor)>|
                enumerates(order, mouses) && acts.drop_first() == #[trigger] announcements(
                    order,
                    origin,
                )
        }),
{
}

/// What `server_step` says of a cursor update, once the packet is known to be one.
proof fn lemma_update_step_shape<A>(
    m: ServerModel<A>,
    data: Seq<u8>,
    origin: A,
    joiner: MouseCursor,
    m2: ServerModel<A>,
    acts: Seq<ActionModel<A>>,
)
    requires
        server_step(m, data, origin, joiner, m2, acts),
        packet_of_bytes(data) is Some,
        packet_type_of(packet_of_bytes(data)->Some_0.packet_type) == Ok::<PacketType, u8>(
            PacketType::Cursor,
        ),
        packet_cursor_of(packet_of_bytes(data)->Some_0.payload[0]) == Ok::<PacketCursor, u8>(
            PacketCursor::Update,
        ),
    ensures
        ({
            let p = packet_of_bytes(data)->Some_0;
            let from = id_at(p.payload, 1);
            let c = decode_cursor(p.payload.subrange(3, 16))->Ok_0;
            &&& m2 == with_cursors(m, merge_cursor(m.mouses, from, c))
            &&& acts.len() >= 1
            &&& acts[0] == ActionModel::<A>::ShowPacket(p)
            &&& exists|order: Seq<(u16, A)>|
                enumerates(order, m.clients) && acts.drop_first() == #[trigger] relays(
                    order,
                    from,
                    bytes_of_packet(p),
                )
        }),
{
}

/// Whether an action sends `bytes` to the address of an entry of `order`
/// whose id is not `skip`.
pub open spec fn sends_to_listed<A>(a: ActionModel<A>, order: Seq<(u16, A)>, skip: u16, bytes: Seq<u8>) -> bool {
    exists|x: int|
        #![trigger order[x]]
        0 <= x < order.len() && order[x].0 != skip && a == ActionModel::Send(bytes, order[x].1)
}

/// Whether some action of `acts` sends `bytes` to `to`.
pub open spec fn some_send<A>(acts: Seq<ActionModel<A>>, bytes: Seq<u8>, to: A) -> bool {
    exists|i: int| #![trigger acts[i]] 0 <= i < acts.len() && acts[i] == ActionModel::Send(bytes, to)
}

/// Every relay goes to a listed client other than `skip`, and every listed
/// client other than `skip` gets one.
pub proof fn lemma_relays_members<A>(order: Seq<(u16, A)>, skip: u16, bytes: Seq<u8>)
    ensures
        forall|i: int|
            0 <= i < relays(order, skip, bytes).len() ==> #[trigger] sends_to_listed(
                relays(order, skip, bytes)[i],
                order,
                skip,
                bytes,
            ),
        forall|x: int|
            0 <= x < order.len() && order[x].0 != skip ==> #[trigger] some_send(
                relays(order, skip, bytes),
                bytes,
                order[x].1,
            ),
    decreases order.len(),
{
    if order.len() > 0 {
        let o = order.drop_last();
        lemma_relays_members(o, skip, bytes);
        let r = relays(order, skip, bytes);
        let ro = relays(o, skip, bytes);
        assert forall|i: int| 0 <= i < r.len() implies #[trigger] sends_to_listed(
            r[i],
            order,
            skip,
            bytes,
        ) by {
            if i < ro.len() {
                assert(r[i] == ro[i]);
                assert(sends_to_listed(ro[i], o, skip, bytes));
                let x = choose|x: int|
                    #![trigger o[x]]
                    0 <= x < o.len() && o[x].0 != skip && ro[i] == ActionModel::Send(bytes, o[x].1);
                assert(order[x] == o[x]);
            } else {
                let x = order.len() - 1;
                assert(order[x] == order.last());
            }
        }
        assert forall|x: int| 0 <= x < order.len() && order[x].0 != skip implies #[trigger] some_send(
            r,
            bytes,
            order[x].1,
        ) by {
            if x < o.len() {
                assert(o[x] == order[x]);
                assert(some_send(ro, bytes, o[x].1));
                let i = choose|i: int|
                    #![trigger ro[i]]
                    0 <= i < ro.len() && ro[i] == ActionModel::Send(bytes, o[x].1);
                assert(r[i] == ro[i]);
            } else {
                let i = r.len() - 1;
                assert(r[i] == ActionModel::Send(bytes, order.last().1));
            }
        }
    }
}

/// A cursor update from the client whose id `k` is in bytes 4..6 puts `k` at
/// the position and button state in bytes 6..15, with the colour it had, or
/// the colour in bytes 15..19 for a cursor the server did not know; every
/// other cursor, the clients and the next id stay as they were.
pub proof fn lemma_server_update_touches_only_named<A>(
    m: ServerModel<A>,
    data: Seq<u8>,
    origin: A,
    joiner: MouseCursor,
    m2: ServerModel<A>,
    acts: Seq<ActionModel<A>>,
)
    requires
        server_accepts(m, data),
        server_step(m, data, origin, joiner, m2, acts),
        data.len() >= 4,
        data[0] == 0x01,
        data[3] == 0x01,
    ensures
        ({
            let k = be_value(data.subrange(4, 6)) as u16;
            &&& m2.clients == m.clients
            &&& m2.next_client_id == m.next_client_id
            &&& m2.running == m.running
            &&& forall|j: u16|
                j != k ==> (#[trigger] m2.mouses.contains_key(j) == m.mouses.contains_key(j)) && (
                m.mouses.contains_key(j) ==> m2.mouses[j] == m.mouses[j])
            &&& m2.mouses.contains_key(k)
            &&& m2.mouses[k].position.x == be_value(data.subrange(6, 10))
            &&& m2.mouses[k].position.y == be_value(data.subrange(10, 14))
            &&& m2.mouses[k].pressed == (data[14] != 0)
            &&& m.mouses.contains_key(k) ==> m2.mouses[k].color == m.mouses[k].color
            &&& !m.mouses.contains_key(k) ==> m2.mouses[k].color == (Color {
                r: data[15],
                g: data[16],
                b: data[17],
                a: data[18],
            })
        }),
{
    lemma_cursor_frame(data);
    let p = packet_of_bytes(data).unwrap();
    assert(packet_type_of(p.packet_type) == Ok::<PacketType, u8>(PacketType::Cursor));
    assert(packet_cursor_of(p.payload[0]) == Ok::<PacketCursor, u8>(PacketCursor::Update));
    let k = be_value(data.subrange(4, 6)) as u16;
    assert(id_at(p.payload, 1) == k);
    let q = data.subrange(6, 19);
    assert(q.subrange(0, 4) =~= data.subrange(6, 10));
    assert(q.subrange(4, 8) =~= data.subrange(10, 14));
    crate::bytes::lemma_be_value_bound(data.subrange(6, 10));
    crate::bytes::lemma_be_value_bound(data.subrange(10, 14));
    assert(crate::bytes::pow256(4) == 0x1_0000_0000) by {
        reveal_with_fuel(crate::bytes::pow256, 5);
    }
    lemma_update_step_shape(m, data, origin, joiner, m2, acts);
    assert(m2 == with_cursors(m, merge_cursor(m.mouses, k, decode_cursor(q)->Ok_0)));
}

/// Whether an action sends `bytes` to a client in `clients` other than `skip`.
pub open spec fn sends_to_other_client<A>(a: ActionModel<A>, clients: Map<u16, A>, skip: u16, bytes: Seq<u8>) -> bool {
    exists|j: u16|
        #![trigger clients.contains_key(j)]
        clients.contains_key(j) && j != skip && a == ActionModel::Send(bytes, clients[j])
}

/// A cursor update from the client whose id `k` is in bytes 4..6 shows the
/// packet, then sends it (its bytes up to the end of its payload) to every
/// client but `k`, and to no one else.
pub proof fn lemma_server_update_relays_to_others<A>(
    m: ServerModel<A>,
    data: Seq<u8>,
    origin: A,
    joiner: MouseCursor,
    m2: ServerModel<A>,
    acts: Seq<ActionModel<A>>,
)
    requires
        server_accepts(m, data),
        server_step(m, data, origin, joiner, m2, acts),
        data.len() >= 4,
        data[0] == 0x01,
        data[3] == 0x01,
    ensures
        acts.len() >= 1,
        acts[0] is ShowPacket,
        forall|i: int|
            1 <= i < acts.len() ==> #[trigger] sends_to_other_client(
                acts[i],
                m.clients,
                be_value(data.subrange(4, 6)) as u16,
                data.subrange(0, 3 + be_value(data.subrange(1, 3)) as int),
            ),
        forall|j: u16|
            m.clients.contains_key(j) && j != be_value(data.subrange(4, 6)) as u16 ==> #[trigger] some_send(
                acts.drop_first(),
                data.subrange(0, 3 + be_value(data.subrange(1, 3)) as int),
                m.clients[j],
            ),
{
    lemma_cursor_frame(data);
    crate::packet::lemma_packet_read_write(data);
    let p = packet_of_bytes(data).unwrap();
    assert(packet_type_of(p.packet_type) == Ok::<PacketType, u8>(PacketType::Cursor));
    assert(packet_cursor_of(p.payload[0]) == Ok::<PacketCursor, u8>(PacketCursor::Update));
    let k = be_value(data.subrange(4, 6)) as u16;
    assert(id_at(p.payload, 1) == k);
    let b = data.subrange(0, 3 + be_value(data.subrange(1, 3)) as int);
    assert(bytes_of_packet(p) == b);
    lemma_update_step_shape(m, data, origin, joiner, m2, acts);
    let order = choose|order: Seq<(u16, A)>|
        enumerates(order, m.clients) && acts.drop_first() == #[trigger] relays(order, k, b);
    lemma_relays_members(order, k, b);
    let r = relays(order, k, b);
    assert(acts.drop_first() == r);
    assert forall|i: int| 1 <= i < acts.len() implies #[trigger] sends_to_other_client(
        acts[i],
        m.clients,
        k,
        b,
    ) by {
        assert(acts[i] == r[i - 1]);
        assert(sends_to_listed(r[i - 1], order, k, b));
        let x = choose|x: int|
            #![trigger order[x]]
            0 <= x < order.len() && order[x].0 != k && r[i - 1] == ActionModel::Send(b, order[x].1);
        let j = order[x].0;
        assert(m.clients.contains_key(j) && m.clients[j] == order[x].1);
    }
    assert forall|j: u16| m.clients.contains_key(j) && j != k implies #[trigger] some_send(
        acts.drop_first(),
        b,
        m.clients[j],
    ) by {
        let x = choose|x: int| 0 <= x < order.len() && #[trigger] order[x].0 == j;
        assert(order[x].1 == m.clients[j]);
        assert(some_send(r, b, order[x].1));
    }
}

/// A cursor removal naming the id `k` in bytes 5..7 drops `k`'s cursor and
/// leaves every other cursor, the clients and the next id as they were,
/// and asks for nothing.
pub proof fn lemma_server_delete_only_removes_named<A>(
    m: ServerModel<A>,
    data: Seq<u8>,
    origin: A,
    joiner: MouseCursor,
    m2: ServerModel<A>,
    acts: Seq<ActionModel<A>>,
)
    requires
        server_accepts(m, data),
        server_step(m, data, origin, joiner, m2, acts),
        data.len() >= 4,
        data[0] == 0x01,
        data[3] == 0x02,
    ensures
        ({
            let k = be_value(data.subrange(5, 7)) as u16;
            &&& m2.clients == m.clients
            &&& m2.next_client_id == m.next_client_id
            &&& m2.running == m.running
            &&& !m2.mouses.contains_key(k)
            &&& forall|j: u16|
                j != k ==> (#[trigger] m2.mouses.contains_key(j) == m.mouses.contains_key(j)) && (
                m.mouses.contains_key(j) ==> m2.mouses[j] == m.mouses[j])
            &&& acts.len() == 0
        }),
{
    lemma_cursor_frame(data);
}

/// A join registers `origin` under the next id and gives it `joiner`,
/// leaving every other client and cursor as it was, and answers `origin`
/// first with `0xff` and the id big-endian.
pub proof fn lemma_server_join<A>(
    m: ServerModel<A>,
    data: Seq<u8>,
    origin: A,
    joiner: MouseCursor,
    m2: ServerModel<A>,
    acts: Seq<ActionModel<A>>,
)
    requires
        server_accepts(m, data),
        server_step(m, data, origin, joiner, m2, acts),
        data.len() >= 3,
        data[0] == 0xff,
    ensures
        m2.next_client_id == m.next_client_id + 1,
        m2.running == m.running,
        m2.clients.contains_key(m.next_client_id) && m2.clients[m.next_client_id] == origin,
        m2.mouses.contains_key(m.next_client_id) && m2.mouses[m.next_client_id] == joiner,
        forall|j: u16|
            j != m.next_client_id ==> (#[trigger] m2.clients.contains_key(j)
                == m.clients.contains_key(j)) && (m.clients.contains_key(j) ==> m2.clients[j]
                == m.clients[j]),
        forall|j: u16|
            j != m.next_client_id ==> (#[trigger] m2.mouses.contains_key(j)
                == m.mouses.contains_key(j)) && (m.mouses.contains_key(j) ==> m2.mouses[j]
                == m.mouses[j]),
        acts.len() >= 1,
        acts[0] == ActionModel::Reply(
            seq![0xffu8, (m.next_client_id / 256) as u8, (m.next_client_id % 256) as u8],
            origin,
        ),
{
    let id = m.next_client_id;
    crate::packet::lemma_packet_read_write(data);
    let p = packet_of_bytes(data).unwrap();
    assert(p.packet_type == 0xff);
    assert(packet_type_of(p.packet_type) == Ok::<PacketType, u8>(PacketType::Acknowledge));
    assert(be_digits(id as nat, 2) =~= seq![(id / 256) as u8, (id % 256) as u8]) by {
        reveal_with_fuel(be_digits, 3);
        assert(id as nat / 256 / 256 == 0);
    }
    assert(ack_datagram(id) =~= seq![0xffu8, (id / 256) as u8, (id % 256) as u8]);
    lemma_join_step_shape(m, data, origin, joiner, m2, acts);
}

/// Whether an action announces to `to` a cursor of `mouses` under its id.
pub open spec fn announces_cursor<A>(a: ActionModel<A>, mouses: Map<u16, MouseCursor>, to: A) -> bool {
    exists|j: u16|
        #![trigger mouses.contains_key(j)]
        mouses.contains_key(j) && a == ActionModel::Send(cursor_update_datagram(j, mouses[j]), to)
}

/// After a join, `origin` gets one announcement per cursor the server then
/// holds, each naming that cursor under its id, and nothing else.
pub proof fn lemma_server_join_announces<A>(
    m: ServerModel<A>,
    data: Seq<u8>,
    origin: A,
    joiner: MouseCursor,
    m2: ServerModel<A>,
    acts: Seq<ActionModel<A>>,
)
    requires
        server_accepts(m, data),
        server_step(m, data, origin, joiner, m2, acts),
        data.len() >= 3,
        data[0] == 0xff,
    ensures
        acts.len() == 1 + m2.mouses.dom().len(),
        forall|i: int|
            1 <= i < acts.len() ==> #[trigger] announces_cursor(acts[i], m2.mouses, origin),
        forall|j: u16|
            m2.mouses.contains_key(j) ==> #[trigger] some_send(
                acts.drop_first(),
                cursor_update_datagram(j, m2.mouses[j]),
                origin,
            ),
{
    crate::packet::lemma_packet_read_write(data);
    let p = packet_of_bytes(data).unwrap();
    assert(p.packet_type == 0xff);
    assert(packet_type_of(p.packet_type) == Ok::<PacketType, u8>(PacketType::Acknowledge));
    lemma_join_step_shape(m, data, origin, joiner, m2, acts);
    let order = choose|order: Seq<(u16, MouseCursor)>|
        enumerates(order, m2.mouses) && acts.drop_first() == #[trigger] announcements(order, origin);
    let an = announcements(order, origin);
    assert(an.len() == order.len());
    assert(acts.drop_first() == an);
    assert forall|i: int| 1 <= i < acts.len() implies #[trigger] announces_cursor(
        acts[i],
        m2.mouses,
        origin,
    ) by {
        assert(acts[i] == an[i - 1]);
        let e = order[i - 1];
        assert(m2.mouses.contains_key(e.0) && m2.mouses[e.0] == e.1);
        assert(an[i - 1] == ActionModel::Send(cursor_update_datagram(e.0, e.1), origin));
    }
    assert forall|j: u16| m2.mouses.contains_key(j) implies #[trigger] some_send(
        acts.drop_first(),
        cursor_update_datagram(j, m2.mouses[j]),
        origin,
    ) by {
        let x = choose|x: int| 0 <= x < order.len() && #[trigger] order[x].0 == j;
        assert(m2.mouses[order[x].0] == order[x].1);
        assert(an[x] == ActionModel::Send(cursor_update_datagram(j, m2.mouses[j]), origin));
    }
}

/// A datagram that is neither a join nor a cursor packet changes nothing
/// and asks for nothing.
pub proof fn lemma_server_ignores_other_packets<A>(
    m: ServerModel<A>,
    data: Seq<u8>,
    origin: A,
    joiner: MouseCursor,
    m2: ServerModel<A>,
    acts: Seq<ActionModel<A>>,
)
    requires
        server_accepts(m, data),
        server_step(m, data, origin, joiner, m2, acts),
        data.len() < 3 || (data[0] != 0xff && data[0] != 0x01),
    ensures
        m2 == m,
        acts.len() == 0,
{
}

} // verus!
