//! The session bookkeeping of the relay server: which client each gRPC
//! session carries, and what the server does with each message of the
//! bidirectional stream and each event of a broker connection.

use vstd::prelude::*;
use crate::codec::packet::{copy_packet, encode_packet, MqttPacket};
use crate::stream_payload::{versioned_bytes, VersionedPacket};
use crate::keyed::{distinct_keys, lemma_map_at, pairs_map};
use dashmap::DashMap;

verus! {

/// The concurrent map of the relay server, declared so that it can be held
/// in a field.
#[verifier::external_type_specification]
#[verifier::external_body]
#[verifier::reject_recursive_types(K)]
#[verifier::reject_recursive_types(V)]
#[verifier::reject_recursive_types(S)]
pub struct ExDashMap<K, V, S>(DashMap<K, V, S>);

/// What a `DashMap` from client ids to session ids holds: each client id,
/// as characters, with its session id.
pub uninterp spec fn session_entries(m: DashMap<String, String>) -> Map<Seq<char>, Seq<char>>;

/// The character views of a list of string pairs.
pub open spec fn string_pairs(v: Seq<(String, String)>) -> Seq<(Seq<char>, Seq<char>)> {
    v.map_values(|p: (String, String)| (p.0@, p.1@))
}

/// Calls `DashMap::new`. Claimed: the new map holds nothing.
#[verifier::external_body]
fn new_connections() -> (r: DashMap<String, String>)
    ensures
        session_entries(r).dom() == Set::<Seq<char>>::empty(),
{
    DashMap::new()
}

/// Calls `DashMap::insert`. Claimed: afterwards the key maps to the value
/// and every other entry is as it was; the value the key had before, if
/// any, is returned.
#[verifier::external_body]
fn insert_connection(m: &mut DashMap<String, String>, key: String, value: String) -> (r: Option<String>)
    ensures
        session_entries(*final(m)) == session_entries(*old(m)).insert(key@, value@),
        match r {
            Some(v) => session_entries(*old(m)).contains_key(key@) && v@ == session_entries(*old(m))[key@],
            None => !session_entries(*old(m)).contains_key(key@),
        },
{
    m.insert(key, value)
}

/// Calls `DashMap::remove`. Claimed: afterwards the key is absent and every
/// other entry is as it was; the key and value that were there, if any,
/// are returned.
#[verifier::external_body]
fn remove_connection(m: &mut DashMap<String, String>, key: &String) -> (r: Option<(String, String)>)
    ensures
        session_entries(*final(m)) == session_entries(*old(m)).remove(key@),
        match r {
            Some((k, v)) => session_entries(*old(m)).contains_key(key@) && k@ == key@ && v@ == session_entries(
                *old(m),
            )[key@],
            None => !session_entries(*old(m)).contains_key(key@),
        },
{
    m.remove(key)
}

/// Walks the map with `DashMap::iter`, copying out each key and value.
/// Claimed: the pairs are exactly the map's entries, each key once; the
/// order, which depends on hashing, is left open.
#[verifier::external_body]
fn list_connections(m: &DashMap<String, String>) -> (r: Vec<(String, String)>)
    ensures
        distinct_keys(string_pairs(r@)),
        pairs_map(string_pairs(r@)) == session_entries(*m),
{
    m.iter().map(|e| (e.key().clone(), e.value().clone())).collect()
}

/// The clients of the relay server, each with the session that carries
/// it: a client appears at most once.
pub struct SessionTable {
    connections: DashMap<String, String>,
}

impl View for SessionTable {
    type V = Map<Seq<char>, Seq<char>>;

    closed spec fn view(&self) -> Map<Seq<char>, Seq<char>> {
        session_entries(self.connections)
    }
}

impl SessionTable {
    /// A table with no client.
    pub fn new() -> (r: Self)
        ensures
            r@ == Map::<Seq<char>, Seq<char>>::empty(),
    {
        let r = SessionTable { connections: new_connections() };
        assert(r@ =~= Map::<Seq<char>, Seq<char>>::empty());
        r
    }

    /// Registers `client_id` with `session_id`, replacing the client's
    /// previous session if it had one.
    pub fn establish(&mut self, client_id: String, session_id: String)
        ensures
            final(self)@ == old(self)@.insert(client_id@, session_id@),
    {
        let _previous = insert_connection(&mut self.connections, client_id, session_id);
    }

    /// Forgets `client_id`; tells whether it was there.
    pub fn remove_client(&mut self, client_id: &String) -> (r: bool)
        ensures
            final(self)@ == old(self)@.remove(client_id@),
            r == old(self)@.contains_key(client_id@),
    {
        let removed = remove_connection(&mut self.connections, client_id);
        removed.is_some()
    }

    /// A client whose session is `session_id`, if there is one.
    pub fn find_client_by_session(&self, session_id: &String) -> (r: Option<String>)
        ensures
            match r {
                Some(c) => self@.contains_key(c@) && self@[c@] == session_id@,
                None => forall|c: Seq<char>| #[trigger] self@.contains_key(c) ==> self@[c] != session_id@,
            },
    {
        let entries = list_connections(&self.connections);
        let ghost s = string_pairs(entries@);
        let mut i: usize = 0;
        while i < entries.len()
            invariant
                i <= entries@.len(),
                s == string_pairs(entries@),
                distinct_keys(s),
                pairs_map(s) == self@,
                forall|j: int| 0 <= j < i ==> (#[trigger] s[j]).1 != session_id@,
            decreases entries@.len() - i,
        {
            if entries[i].1 == *session_id {
                proof {
                    lemma_map_at(s, i as int);
                }
                return Some(entries[i].0.clone());
            }
            assert(s[i as int].1 == entries@[i as int].1@);
            i += 1;
        }
        assert forall|c: Seq<char>| #[trigger] self@.contains_key(c) implies self@[c] != session_id@ by {
            let j = choose|j: int| 0 <= j < s.len() && (#[trigger] s[j]).0 == c;
            lemma_map_at(s, j);
        }
        None
    }
}

/// What a session-control message asks of the server.
#[derive(Debug, Clone, Copy, PartialEq, Eq, Structural)]
pub enum ControlKind {
    /// Open a broker connection for a client.
    Establish,
    /// Forget the client of the session.
    Terminate,
    /// A kind the server does not act on.
    Other,
}

/// The payload of a message of the relay stream.
#[derive(Debug, Clone, PartialEq)]
pub enum RelayedPayload {
    /// An MQTT 3.1.1 packet from a client, if the message holds one.
    MqttV3Packet(Option<MqttPacket>),
    /// An MQTT 5 packet from a client, if the message holds one.
    MqttV5Packet(Option<MqttPacket>),
    /// Session management.
    SessionControl { kind: ControlKind, client_id: String },
}

/// What the server's stream reader sees next.
#[derive(Debug, Clone, PartialEq)]
pub enum StreamEvent {
    /// The client closed the stream.
    Closed,
    /// The stream failed.
    Failed,
    /// A message of a session.
    Message { session_id: String, payload: Option<RelayedPayload> },
}

/// What the server does for a stream event.
#[derive(Debug, Clone, PartialEq)]
pub enum StreamAction {
    /// Stop reading the stream; when `cancel` is set, the broker
    /// connections opened for it are told to stop as well.
    Stop { cancel: bool },
    /// Hand the packet to the broker connection of the client.
    ToBroker { client_id: String, packet: VersionedPacket },
    /// Open a broker connection for the client, carried by the session.
    OpenBroker { client_id: String, session_id: String },
    /// The client of the session was forgotten.
    Released { client_id: String },
    /// Nothing to do.
    Nothing,
}

/// The packet, tagged with its version, that a packet payload carries.
pub open spec fn payload_packet(p: RelayedPayload) -> Option<(bool, MqttPacket)> {
    match p {
        RelayedPayload::MqttV3Packet(Some(q)) => Some((true, q)),
        RelayedPayload::MqttV5Packet(Some(q)) => Some((false, q)),
        _ => None,
    }
}

/// `v` is the packet of `t` in MQTT 3.1.1 when its flag is set, in MQTT 5
/// otherwise.
pub open spec fn tagged_as(v: VersionedPacket, t: (bool, MqttPacket)) -> bool {
    let (v3, q) = t;
    match v {
        VersionedPacket::V3(x) => v3 && x@ == q@,
        VersionedPacket::V5(x) => !v3 && x@ == q@,
    }
}

/// Applies one event of the bidirectional stream to the session table and
/// says what the server does next. A packet goes to the broker connection
/// of a client whose session the message names, and is dropped when no
/// client has that session; Establish registers the client under the
/// message's session and opens its broker connection; Terminate forgets a
/// client of the session.
pub fn handle_stream_event(table: &mut SessionTable, event: StreamEvent) -> (r: StreamAction)
    ensures
        match event {
            StreamEvent::Closed => r == StreamAction::Stop { cancel: true } && final(table)@ == old(table)@,
            StreamEvent::Failed => r == StreamAction::Stop { cancel: false } && final(table)@ == old(table)@,
            StreamEvent::Message { session_id, payload } => match payload {
                Some(RelayedPayload::SessionControl { kind: ControlKind::Establish, client_id }) => {
                    &&& final(table)@ == old(table)@.insert(client_id@, session_id@)
                    &&& r matches StreamAction::OpenBroker { client_id: c, session_id: s }
                    &&& c@ == client_id@ && s@ == session_id@
                },
                Some(RelayedPayload::SessionControl { kind: ControlKind::Terminate, .. }) => match r {
                    StreamAction::Released { client_id: c } => {
                        &&& old(table)@.contains_key(c@) && old(table)@[c@] == session_id@
                        &&& final(table)@ == old(table)@.remove(c@)
                    },
                    StreamAction::Nothing => {
                        &&& forall|c: Seq<char>| #[trigger] old(table)@.contains_key(c) ==> old(table)@[c] != session_id@
                        &&& final(table)@ == old(table)@
                    },
                    _ => false,
                },
                Some(p) if payload_packet(p) is Some => {
                    &&& final(table)@ == old(table)@
                    &&& match r {
                        StreamAction::ToBroker { client_id: c, packet: v } => {
                            &&& old(table)@.contains_key(c@) && old(table)@[c@] == session_id@
                            &&& tagged_as(v, payload_packet(p)->0)
                        },
                        StreamAction::Nothing => forall|c: Seq<char>|
                            #[trigger] old(table)@.contains_key(c) ==> old(table)@[c] != session_id@,
                        _ => false,
                    }
                },
                _ => r == StreamAction::Nothing && final(table)@ == old(table)@,
            },
        },
{
    match event {
        StreamEvent::Closed => StreamAction::Stop { cancel: true },
        StreamEvent::Failed => StreamAction::Stop { cancel: false },
        StreamEvent::Message { session_id, payload } => match payload {
            None => StreamAction::Nothing,
            Some(RelayedPayload::MqttV3Packet(None)) => StreamAction::Nothing,
            Some(RelayedPayload::MqttV5Packet(None)) => StreamAction::Nothing,
            Some(RelayedPayload::MqttV3Packet(Some(q))) => match table.find_client_by_session(&session_id) {
                Some(client_id) => StreamAction::ToBroker { client_id, packet: VersionedPacket::V3(q) },
                None => StreamAction::Nothing,
            },
            Some(RelayedPayload::MqttV5Packet(Some(q))) => match table.find_client_by_session(&session_id) {
                Some(client_id) => StreamAction::ToBroker { client_id, packet: VersionedPacket::V5(q) },
                None => StreamAction::Nothing,
            },
            Some(RelayedPayload::SessionControl { kind, client_id }) => match kind {
                ControlKind::Establish => {
                    let c = client_id.clone();
                    let s = session_id.clone();
                    table.establish(client_id, session_id);
                    StreamAction::OpenBroker { client_id: c, session_id: s }
                },
                ControlKind::Terminate => match table.find_client_by_session(&session_id) {
                    Some(c) => {
                        table.remove_client(&c);
                        StreamAction::Released { client_id: c }
                    },
                    None => StreamAction::Nothing,
                },
                ControlKind::Other => StreamAction::Nothing,
            },
        },
    }
}

/// Once a client is established on a session, the table names a client
/// for that session, so the session's packets are no longer dropped; and a
/// client released from a session is no longer in the table.
pub proof fn law_established_session_is_routed(
    m: Map<Seq<char>, Seq<char>>,
    client: Seq<char>,
    session: Seq<char>,
)
    ensures
        m.insert(client, session).contains_key(client),
        m.insert(client, session)[client] == session,
        !(forall|c: Seq<char>| #[trigger] m.insert(client, session).contains_key(c)
            ==> m.insert(client, session)[c] != session),
        !m.remove(client).contains_key(client),
{
    assert(m.insert(client, session).contains_key(client));
}

/// Which way a stream message travels.
#[derive(Debug, Clone, Copy, PartialEq, Eq, Structural)]
pub enum MessageDirection {
    ClientToBroker,
    BrokerToClient,
}

/// A message of the relay stream: its session, its place in the session's
/// sequence, its direction and its payload.
#[derive(Debug, Clone, PartialEq)]
pub struct StreamMessage {
    pub session_id: String,
    pub sequence_id: u64,
    pub direction: MessageDirection,
    pub payload: Option<RelayedPayload>,
}

/// `v` and `w` are the same packet in the same protocol.
pub open spec fn same_packet(v: VersionedPacket, w: VersionedPacket) -> bool {
    match (v, w) {
        (VersionedPacket::V3(a), VersionedPacket::V3(b)) => a@ == b@,
        (VersionedPacket::V5(a), VersionedPacket::V5(b)) => a@ == b@,
        _ => false,
    }
}

/// The stream message that carries a packet in its own protocol; none for
/// an MQTT 3.1.1 AUTH, which that protocol lacks.
pub fn convert_mqtt_to_stream_message(
    packet: &VersionedPacket,
    session_id: String,
    sequence_id: u64,
    direction: MessageDirection,
) -> (r: Option<StreamMessage>)
    ensures
        r is None <==> (packet matches VersionedPacket::V3(p) && p is Auth),
        r matches Some(m) ==> {
            &&& m.session_id == session_id
            &&& m.sequence_id == sequence_id
            &&& m.direction == direction
            &&& m.payload matches Some(pl) && payload_packet(pl) is Some && tagged_as(*packet, payload_packet(pl)->0)
        },
{
    let payload = match packet {
        VersionedPacket::V3(MqttPacket::Auth(_)) => {
            return None;
        },
        VersionedPacket::V3(p) => RelayedPayload::MqttV3Packet(Some(copy_packet(p))),
        VersionedPacket::V5(p) => RelayedPayload::MqttV5Packet(Some(copy_packet(p))),
    };
    Some(StreamMessage { session_id, sequence_id, direction, payload: Some(payload) })
}

/// The packet a stream message carries, in the protocol of its payload;
/// none for a message with no packet (no payload, an empty packet payload,
/// or session control).
pub fn convert_stream_message_to_mqtt_packet(message: StreamMessage) -> (r: Option<VersionedPacket>)
    ensures
        match message.payload {
            Some(RelayedPayload::MqttV3Packet(Some(p))) => r == Some(VersionedPacket::V3(p)),
            Some(RelayedPayload::MqttV5Packet(Some(p))) => r == Some(VersionedPacket::V5(p)),
            _ => r is None,
        },
        r matches Some(v) ==> message.payload matches Some(pl) && payload_packet(pl) is Some && tagged_as(
            v,
            payload_packet(pl)->0,
        ),
{
    match message.payload {
        Some(RelayedPayload::MqttV3Packet(Some(p))) => Some(VersionedPacket::V3(p)),
        Some(RelayedPayload::MqttV5Packet(Some(p))) => Some(VersionedPacket::V5(p)),
        _ => None,
    }
}

/// A packet carried over the stream and read back is the same packet in
/// the same protocol: two packets that a payload carries are the same.
pub proof fn law_stream_message_round_trip(v: VersionedPacket, w: VersionedPacket, t: (bool, MqttPacket))
    requires
        tagged_as(v, t),
        tagged_as(w, t),
    ensures
        same_packet(v, w),
{
}

/// What a broker connection of the server sees next.
#[derive(Debug, Clone, PartialEq)]
pub enum BrokerEvent {
    /// The stream that opened the connection has ended.
    Cancelled,
    /// A packet to send to the broker.
    Send(VersionedPacket),
    /// The broker closed the connection.
    Closed,
    /// Reading from the broker failed.
    Failed,
}

/// What a broker connection does for an event.
#[derive(Debug, Clone, PartialEq)]
pub enum BrokerAction {
    /// Write these bytes to the broker.
    Write(Vec<u8>),
    /// Stop serving the connection.
    Stop,
}

/// Applies one event to a broker connection carried by `session_id`. A
/// packet becomes its bytes in its own version. When the stream ends or the
/// broker closes, the table entry whose client id equals the session id is
/// dropped (the entry of the session's client itself, registered under its
/// client id, stays).
pub fn handle_broker_event(table: &mut SessionTable, session_id: &String, event: BrokerEvent) -> (r: BrokerAction)
    requires
        event matches BrokerEvent::Send(p) ==> versioned_bytes(p) is Some,
    ensures
        match event {
            BrokerEvent::Send(p) => r matches BrokerAction::Write(b) && versioned_bytes(p) == Some(b@)
                && final(table)@ == old(table)@,
            BrokerEvent::Failed => r == BrokerAction::Stop && final(table)@ == old(table)@,
            _ => r == BrokerAction::Stop && final(table)@ == old(table)@.remove(session_id@),
        },
{
    match event {
        BrokerEvent::Send(p) => {
            let b = match &p {
                VersionedPacket::V3(q) => encode_packet(q, 4),
                VersionedPacket::V5(q) => encode_packet(q, 5),
            };
            match b {
                Some(b) => BrokerAction::Write(b),
                None => BrokerAction::Stop,
            }
        },
        BrokerEvent::Failed => BrokerAction::Stop,
        _ => {
            table.remove_client(session_id);
            BrokerAction::Stop
        },
    }
}

/// A packet from the MQTT 3.1.1 stream is handled as an MQTT 3.1.1 packet and
/// one from the MQTT 5 stream as an MQTT 5 packet, never the other way.
pub proof fn law_stream_version_kept(q: MqttPacket, x: MqttPacket)
    ensures
        payload_packet(RelayedPayload::MqttV3Packet(Some(q))) == Some((true, q)),
        payload_packet(RelayedPayload::MqttV5Packet(Some(q))) == Some((false, q)),
        tagged_as(VersionedPacket::V3(x), (true, q)) <==> x@ == q@,
        tagged_as(VersionedPacket::V5(x), (false, q)) <==> x@ == q@,
        !tagged_as(VersionedPacket::V3(x), (false, q)),
        !tagged_as(VersionedPacket::V5(x), (true, q)),
{
}

} // verus!
