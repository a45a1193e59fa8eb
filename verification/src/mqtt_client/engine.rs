//! A sans-I/O MQTT protocol engine: the application feeds it received bytes
//! and clock ticks, and takes from it the bytes to send and the events to
//! handle.

use vstd::prelude::*;
use std::collections::{HashMap, HashSet};
use vstd::std_specs::hash::spec_keys_iter;
use vstd::std_specs::iter::IteratorSpec;
use vstd::string::StrSliceExecFns;
use std::time::Instant;
use crate::clock::{instant_now, millis_since};
use crate::codec::packet::{
    copy_strings, encode_packet, packet_bytes, packet_ok, AckV, ConnectV, MqttAck, MqttConnect, MqttPacket, MqttPublish,
    MqttReason, MqttSubscribe, MqttUnsubscribe, PacketV, PublishV, ReasonV,
};
use crate::codec::property::{copy_properties, copy_property, views, Property, PropertyV};
use crate::codec::stream::MqttParser;
use crate::codec::decode::{frame_accepts, frame_cut, header_cut, lemma_accepted_prefix_cut, lemma_cut_prefix};
use crate::codec::wire::copy_bytes;
use super::client::{ConnectionResult, PingResult, PublishResult, SubscribeResult, UnsubscribeResult};
use super::commands::{PublishCommand, SubscribeCommand, UnsubscribeCommand};
use super::error::MqttClientError;
use super::opts::MqttClientOptions;
use super::priority_queue::{by_priority, slot_for, PriorityQueue};
use super::session::{following_id, ClientSession};
use crate::keyed::{distinct_keys, has_key, lemma_map_at, lemma_map_push, pairs_map};

verus! {

broadcast use vstd::std_specs::hash::group_hash_axioms;

/// What the engine reports to the application.
#[derive(Debug, Clone, PartialEq)]
pub enum MqttEvent {
    Connected(ConnectionResult),
    Disconnected(Option<u8>),
    Published(PublishResult),
    Subscribed(SubscribeResult),
    Unsubscribed(UnsubscribeResult),
    MessageReceived(MqttPublish),
    PingResponse(PingResult),
    Error(MqttClientError),
    /// The server has been silent too long: the connection should be re-established.
    ReconnectNeeded,
}

/// What an event says, its lists read as sequences of values.
pub enum EventV {
    Connected { reason_code: u8, session_present: bool, properties: Option<Seq<PropertyV>> },
    Disconnected(Option<u8>),
    Published { packet_id: Option<u16>, reason_code: Option<u8>, properties: Option<Seq<PropertyV>>, qos: u8 },
    Subscribed { packet_id: u16, reason_codes: Seq<u8>, properties: Seq<PropertyV> },
    Unsubscribed { packet_id: u16, reason_codes: Seq<u8>, properties: Seq<PropertyV> },
    MessageReceived(PublishV),
    PingResponse(bool),
    Error(MqttClientError),
    ReconnectNeeded,
}

/// The values of an optional property list.
pub open spec fn optional_views(ps: Option<Vec<Property>>) -> Option<Seq<PropertyV>> {
    match ps {
        Some(v) => Some(views(v@)),
        None => None,
    }
}

impl View for MqttEvent {
    type V = EventV;

    open spec fn view(&self) -> EventV {
        match self {
            MqttEvent::Connected(c) => EventV::Connected {
                reason_code: c.reason_code,
                session_present: c.session_present,
                properties: optional_views(c.properties),
            },
            MqttEvent::Disconnected(r) => EventV::Disconnected(*r),
            MqttEvent::Published(p) => EventV::Published {
                packet_id: p.packet_id,
                reason_code: p.reason_code,
                properties: optional_views(p.properties),
                qos: p.qos,
            },
            MqttEvent::Subscribed(x) => EventV::Subscribed {
                packet_id: x.packet_id,
                reason_codes: x.reason_codes@,
                properties: views(x.properties@),
            },
            MqttEvent::Unsubscribed(x) => EventV::Unsubscribed {
                packet_id: x.packet_id,
                reason_codes: x.reason_codes@,
                properties: views(x.properties@),
            },
            MqttEvent::MessageReceived(x) => EventV::MessageReceived(x@),
            MqttEvent::PingResponse(x) => EventV::PingResponse(x.success),
            MqttEvent::Error(e) => EventV::Error(*e),
            MqttEvent::ReconnectNeeded => EventV::ReconnectNeeded,
        }
    }
}

/// The values of a list of events.
pub open spec fn event_views(es: Seq<MqttEvent>) -> Seq<EventV> {
    es.map_values(|e: MqttEvent| e@)
}

/// The most publish commands the engine holds back while disconnected.
pub const QUEUE_CAPACITY: usize = 1000;

/// The initial size of the receive buffer, in bytes.
pub const RECEIVE_BUFFER_SIZE: usize = 16384;

/// Milliseconds after which an unacknowledged publication is due again.
pub const RETRANSMIT_AFTER_MS: u64 = 5000;

/// The abstract state of an engine, apart from its clock readings.
pub struct EngineV {
    pub connected: bool,
    pub version: u8,
    /// The next packet identifier of the session, if one has begun.
    pub session: Option<u16>,
    /// Publications held back, in the order they will be sent.
    pub queue: Seq<(u8, PublishCommand)>,
    /// Frames waiting to be sent, oldest first.
    pub outgoing: Seq<Seq<u8>>,
    /// Publications awaiting acknowledgement, with the time each was last sent.
    pub pending_publishes: Seq<(u16, u64)>,
    pub pending_subscribes: Map<u16, Vec<String>>,
    pub pending_unsubscribes: Map<u16, Vec<String>>,
    /// Events not yet taken by the application.
    pub events: Seq<MqttEvent>,
}

/// A sans-I/O MQTT protocol engine.
pub struct MqttEngine {
    options: MqttClientOptions,
    session: Option<ClientSession>,
    priority_queue: PriorityQueue<PublishCommand>,
    is_connected: bool,
    origin: Instant,
    last_packet_sent: u64,
    last_packet_received: u64,
    parser: MqttParser,
    outgoing_buffer: Vec<Vec<u8>>,
    pending_subscribes: HashMap<u16, Vec<String>>,
    pending_unsubscribes: HashMap<u16, Vec<String>>,
    pending_publishes: Vec<(u16, u64)>,
    mqtt_version: u8,
    events: Vec<MqttEvent>,
}

/// The frames waiting to be sent, as byte sequences.
pub open spec fn frames_view(out: Seq<Vec<u8>>) -> Seq<Seq<u8>> {
    out.map_values(|v: Vec<u8>| v@)
}

/// The frames after `p` is queued in the given version: its encoding is
/// appended if it has one, and nothing otherwise.
pub open spec fn push_frame(out: Seq<Seq<u8>>, p: PacketV, version: u8) -> Seq<Seq<u8>> {
    if packet_ok(p, version) { out.push(packet_bytes(p, version)) } else { out }
}

/// All frames, one after another.
pub open spec fn concat_frames(out: Seq<Seq<u8>>) -> Seq<u8>
    decreases out.len(),
{
    if out.len() == 0 { seq![] } else { concat_frames(out.drop_last()) + out.last() }
}

/// Whether a publication awaits acknowledgement under the identifier.
pub open spec fn has_id(s: Seq<(u16, u64)>, id: u16) -> bool {
    exists|i: int| 0 <= i < s.len() && #[trigger] s[i].0 == id
}

/// The pending publications without the one under the identifier.
pub open spec fn without_id(s: Seq<(u16, u64)>, id: u16) -> Seq<(u16, u64)>
    decreases s.len(),
{
    if s.len() == 0 {
        s
    } else if s.last().0 == id {
        without_id(s.drop_last(), id)
    } else {
        without_id(s.drop_last(), id).push(s.last())
    }
}

/// Removing an identifier that is not there changes nothing.
pub proof fn lemma_without_absent(s: Seq<(u16, u64)>, id: u16)
    requires
        !has_id(s, id),
    ensures
        without_id(s, id) == s,
    decreases s.len(),
{
    if s.len() > 0 {
        assert(!has_id(s.drop_last(), id)) by {
            if has_id(s.drop_last(), id) {
                let j = choose|j: int| 0 <= j < s.drop_last().len() && #[trigger] s.drop_last()[j].0 == id;
                assert(s[j].0 == id);
            }
        }
        lemma_without_absent(s.drop_last(), id);
        assert(s.last().0 != id) by {
            assert(s[s.len() - 1].0 == s.last().0);
        }
        assert(s.drop_last().push(s.last()) == s);
    }
}

/// The pending publications after recording one under `id` sent at `t`.
pub open spec fn with_id(s: Seq<(u16, u64)>, id: u16, t: u64) -> Seq<(u16, u64)> {
    without_id(s, id).push((id, t))
}

impl View for MqttEngine {
    type V = EngineV;

    closed spec fn view(&self) -> EngineV {
        EngineV {
            connected: self.is_connected,
            version: self.mqtt_version,
            session: match self.session {
                Some(s) => Some(s.upcoming_id()),
                None => None,
            },
            queue: self.priority_queue@,
            outgoing: frames_view(self.outgoing_buffer@),
            pending_publishes: self.pending_publishes@,
            pending_subscribes: self.pending_subscribes@,
            pending_unsubscribes: self.pending_unsubscribes@,
            events: self.events@,
        }
    }
}

/// The CONNECT that the engine sends for the given options.
pub open spec fn connect_view(o: MqttClientOptions, version: u8) -> ConnectV {
    ConnectV {
        client_id: o.client_id@,
        username: if version == 5 {
            match o.username {
                Some(u) => Some(u@),
                None => None,
            }
        } else {
            None
        },
        password: if version == 5 {
            match o.password {
                Some(p) => Some(p@),
                None => None,
            }
        } else {
            None
        },
        will: None,
        keep_alive: o.keep_alive,
        clean_start: o.clean_start,
        properties: seq![],
    }
}

/// The frames after the queued publications are sent, in queue order.
pub open spec fn publish_frames(out: Seq<Seq<u8>>, q: Seq<(u8, PublishCommand)>, version: u8) -> Seq<Seq<u8>>
    decreases q.len(),
{
    if q.len() == 0 {
        out
    } else {
        push_frame(publish_frames(out, q.drop_last(), version), PacketV::Publish(q.last().1.spec_publish()@), version)
    }
}

/// Whether `q1` is the queue `q` after a bounded enqueue of `c` at priority `p`.
pub open spec fn enqueued(q: Seq<(u8, PublishCommand)>, p: u8, c: PublishCommand, q1: Seq<(u8, PublishCommand)>) -> bool {
    if q.len() < QUEUE_CAPACITY {
        exists|k: int| slot_for(q, k, p) && q1 == q.insert(k, (p, c))
    } else {
        q1 == q
    }
}

/// Whether publishing `c` fails: it needs an identifier and no session has begun.
pub open spec fn publish_fails(s: EngineV, c: PublishCommand) -> bool {
    c.qos > 0 && c.packet_id is None && s.session is None
}

/// The identifier a publication goes out under: none for QoS 0; its own,
/// or else the session's next one.
pub open spec fn publish_id(s: EngineV, c: PublishCommand) -> Option<u16> {
    if c.qos > 0 {
        match c.packet_id {
            Some(id) => Some(id),
            None => Some(s.session->0),
        }
    } else {
        None
    }
}

/// The command as it is queued: with the identifier it goes out under.
pub open spec fn with_publish_id(s: EngineV, c: PublishCommand) -> PublishCommand {
    PublishCommand { packet_id: if c.qos > 0 { publish_id(s, c) } else { c.packet_id }, ..c }
}

/// The engine after publishing `c` at time `t`, when the queue has become `q1`.
pub open spec fn publish_outcome(s: EngineV, c: PublishCommand, t: u64, q1: Seq<(u8, PublishCommand)>) -> EngineV {
    EngineV {
        session: session_after(s, c.qos > 0 && c.packet_id is None),
        pending_publishes: match publish_id(s, c) {
            Some(id) => with_id(s.pending_publishes, id, t),
            None => s.pending_publishes,
        },
        queue: if s.connected { seq![] } else { q1 },
        outgoing: if s.connected { publish_frames(s.outgoing, q1, s.version) } else { s.outgoing },
        ..s
    }
}

/// The session after a request that takes an identifier from it only when
/// it brings none of its own.
pub open spec fn session_after(s: EngineV, takes: bool) -> Option<u16> {
    if takes { Some(following_id(s.session->0)) } else { s.session }
}

/// The identifier a subscription or unsubscription goes out under.
pub open spec fn request_id(s: EngineV, own: Option<u16>) -> u16 {
    match own {
        Some(id) => id,
        None => s.session->0,
    }
}

/// An acknowledgement with reason code 0 and no properties.
pub open spec fn plain_ack(id: u16) -> AckV {
    AckV { packet_id: id, reason_code: 0, properties: seq![] }
}

/// The engine after PUBACK (`qos` 1) or PUBCOMP (`qos` 2) arrives: a
/// publication awaiting it is done and reported; otherwise nothing happens.
pub open spec fn acknowledged(s: EngineV, a: MqttAck, qos: u8) -> EngineV {
    if has_id(s.pending_publishes, a.packet_id) {
        EngineV {
            pending_publishes: without_id(s.pending_publishes, a.packet_id),
            events: s.events.push(MqttEvent::Published(PublishResult {
                packet_id: Some(a.packet_id),
                reason_code: Some(if s.version == 5 { a.reason_code } else { 0 }),
                properties: if s.version == 5 { Some(a.properties) } else { None },
                qos,
            })),
            ..s
        }
    } else {
        s
    }
}

/// The engine after a packet arrives.
pub open spec fn apply_packet(s: EngineV, p: MqttPacket) -> EngineV {
    match p {
        MqttPacket::ConnAck(a) => EngineV {
            connected: a.reason_code == 0,
            events: s.events.push(MqttEvent::Connected(ConnectionResult {
                reason_code: a.reason_code,
                session_present: a.session_present,
                properties: if s.version == 5 { Some(a.properties) } else { None },
            })),
            ..s
        },
        MqttPacket::PubAck(a) => acknowledged(s, a, 1),
        MqttPacket::PubComp(a) => acknowledged(s, a, 2),
        MqttPacket::Publish(x) => EngineV {
            events: s.events.push(MqttEvent::MessageReceived(x)),
            outgoing: match x.packet_id {
                Some(id) => if x.qos == 1 {
                    s.outgoing.push(packet_bytes(PacketV::PubAck(plain_ack(id)), s.version))
                } else if x.qos == 2 {
                    s.outgoing.push(packet_bytes(PacketV::PubRec(plain_ack(id)), s.version))
                } else {
                    s.outgoing
                },
                None => s.outgoing,
            },
            ..s
        },
        MqttPacket::SubAck(a) => EngineV {
            pending_subscribes: s.pending_subscribes.remove(a.packet_id),
            events: s.events.push(MqttEvent::Subscribed(SubscribeResult {
                packet_id: a.packet_id,
                reason_codes: a.reason_codes,
                properties: a.properties,
            })),
            ..s
        },
        MqttPacket::UnsubAck(a) => EngineV {
            pending_unsubscribes: s.pending_unsubscribes.remove(a.packet_id),
            events: s.events.push(MqttEvent::Unsubscribed(UnsubscribeResult {
                packet_id: a.packet_id,
                reason_codes: a.reason_codes,
                properties: a.properties,
            })),
            ..s
        },
        MqttPacket::PingResp => EngineV { events: s.events.push(MqttEvent::PingResponse(PingResult { success: true })), ..s },
        MqttPacket::PubRec(a) => EngineV {
            outgoing: s.outgoing.push(packet_bytes(PacketV::PubRel(plain_ack(a.packet_id)), s.version)),
            ..s
        },
        MqttPacket::PubRel(a) => EngineV {
            outgoing: s.outgoing.push(packet_bytes(PacketV::PubComp(plain_ack(a.packet_id)), s.version)),
            ..s
        },
        MqttPacket::Disconnect(r) => if s.version == 5 {
            EngineV { connected: false, events: s.events.push(MqttEvent::Disconnected(Some(r.reason_code))), ..s }
        } else {
            s
        },
        _ => s,
    }
}

/// The engine after the packets arrive in order.
pub open spec fn apply_all(s: EngineV, ps: Seq<MqttPacket>) -> EngineV
    decreases ps.len(),
{
    if ps.len() == 0 { s } else { apply_packet(apply_all(s, ps.drop_last()), ps.last()) }
}

/// Whether `buf` is accepted frames of the packets `ps`, in order, followed by `rest`.
pub open spec fn stream_accepts(buf: Seq<u8>, ps: Seq<PacketV>, version: u8, rest: Seq<u8>) -> bool
    decreases ps.len(),
{
    if ps.len() == 0 {
        buf == rest
    } else {
        exists|mid: Seq<u8>, n: int| 0 < n <= mid.len() && stream_accepts(buf, ps.drop_last(), version, mid)
            && #[trigger] frame_accepts(ps.last(), mid.take(n), version) && rest == mid.skip(n)
    }
}

/// Whether `buf` begins with an accepted frame of some packet.
pub open spec fn starts_frame(buf: Seq<u8>, version: u8) -> bool {
    exists|q: PacketV, n: int| 0 < n <= buf.len() && #[trigger] frame_accepts(q, buf.take(n), version)
}

/// What reading the bytes `buf` (those held back and those just received)
/// does to an engine in state `s`: the frames of the packets `ps` are read
/// in order up to `rest`, which begins no frame, and this is the only way
/// to read `buf` frame by frame up to bytes that begin no frame; the engine
/// acts on the packets and becomes `t`, and `r` is reported: the events,
/// with an error last when `rest` starts no frame at all.
pub open spec fn reads_incoming(s: EngineV, buf: Seq<u8>, ps: Seq<MqttPacket>, t: EngineV, rest: Seq<u8>, r: Seq<
    MqttEvent,
>) -> bool {
    &&& stream_accepts(buf, packet_views(ps), s.version, rest)
    &&& !starts_frame(rest, s.version)
    &&& forall|qs: Seq<PacketV>, other: Seq<u8>| #[trigger] stream_accepts(buf, qs, s.version, other) && !starts_frame(
        other,
        s.version,
    ) ==> qs == packet_views(ps) && other == rest
    &&& t == (EngineV { events: seq![], ..apply_all(s, ps) })
    &&& ((r == apply_all(s, ps).events && (rest.len() == 0 || header_cut(rest) || frame_cut(rest))) || (r == apply_all(
        s,
        ps,
    ).events.push(MqttEvent::Error(MqttClientError::MalformedPacket)) && malformed_front(rest, s.version)))
}

/// A stream of frames begins with the frame of its first packet.
pub proof fn lemma_stream_front(buf: Seq<u8>, qs: Seq<PacketV>, version: u8, rest: Seq<u8>)
    requires
        stream_accepts(buf, qs, version, rest),
        qs.len() > 0,
    ensures
        exists|n: int| 0 < n <= buf.len() && #[trigger] frame_accepts(qs[0], buf.take(n), version) && stream_accepts(
            buf.skip(n),
            qs.drop_first(),
            version,
            rest,
        ),
    decreases qs.len(),
{
    let (mid, k) = choose|mid: Seq<u8>, k: int| 0 < k <= mid.len() && stream_accepts(buf, qs.drop_last(), version, mid)
        && #[trigger] frame_accepts(qs.last(), mid.take(k), version) && rest == mid.skip(k);
    if qs.len() == 1 {
        assert(buf == mid);
        assert(qs.drop_first() == Seq::<PacketV>::empty());
        assert(frame_accepts(qs[0], buf.take(k), version));
    } else {
        lemma_stream_front(buf, qs.drop_last(), version, mid);
        let n = choose|n: int| 0 < n <= buf.len() && #[trigger] frame_accepts(qs.drop_last()[0], buf.take(n), version)
            && stream_accepts(buf.skip(n), qs.drop_last().drop_first(), version, mid);
        let tail = qs.drop_first();
        assert(tail.drop_last() == qs.drop_last().drop_first());
        assert(tail.last() == qs.last());
        assert(frame_accepts(tail.last(), mid.take(k), version));
        assert(stream_accepts(buf.skip(n), tail, version, rest));
        assert(frame_accepts(qs[0], buf.take(n), version));
    }
}

/// Where reading stops at bytes that begin no frame, every reading of the
/// whole input that stops at such bytes read the same packets.
proof fn lemma_read_to_end(buf: Seq<u8>, ps: Seq<MqttPacket>, version: u8, rest: Seq<u8>)
    requires
        !starts_frame(rest, version),
        forall|qs: Seq<PacketV>, other: Seq<u8>| #[trigger] stream_accepts(buf, qs, version, other) && !starts_frame(
            other,
            version,
        ) ==> ps.len() <= qs.len() && qs.take(ps.len() as int) == packet_views(ps) && stream_accepts(
            rest,
            qs.skip(ps.len() as int),
            version,
            other,
        ),
    ensures
        forall|qs: Seq<PacketV>, other: Seq<u8>| #[trigger] stream_accepts(buf, qs, version, other) && !starts_frame(
            other,
            version,
        ) ==> qs == packet_views(ps) && other == rest,
{
    assert forall|qs: Seq<PacketV>, other: Seq<u8>| #[trigger] stream_accepts(buf, qs, version, other) && !starts_frame(
        other,
        version,
    ) implies qs == packet_views(ps) && other == rest by {
        let k = ps.len() as int;
        let suffix = qs.skip(k);
        if suffix.len() > 0 {
            lemma_stream_front(rest, suffix, version, other);
            let m = choose|m: int| 0 < m <= rest.len() && #[trigger] frame_accepts(suffix[0], rest.take(m), version)
                && stream_accepts(rest.skip(m), suffix.drop_first(), version, other);
            assert(starts_frame(rest, version));
        }
        assert(qs == qs.take(k));
    }
}

/// Bytes appended to a stream of frames are appended to what is left.
pub proof fn lemma_stream_extend(buf: Seq<u8>, qs: Seq<PacketV>, version: u8, rest: Seq<u8>, more: Seq<u8>)
    requires
        stream_accepts(buf, qs, version, rest),
    ensures
        stream_accepts(buf + more, qs, version, rest + more),
    decreases qs.len(),
{
    if qs.len() > 0 {
        let (mid, k) = choose|mid: Seq<u8>, k: int| 0 < k <= mid.len() && stream_accepts(buf, qs.drop_last(), version, mid)
            && #[trigger] frame_accepts(qs.last(), mid.take(k), version) && rest == mid.skip(k);
        lemma_stream_extend(buf, qs.drop_last(), version, mid, more);
        let mid2 = mid + more;
        assert(mid2.take(k) == mid.take(k));
        assert(mid2.skip(k) == rest + more);
        assert(frame_accepts(qs.last(), mid2.take(k), version));
    }
}

/// Two streams of frames, the second read from what the first left, make
/// one stream of all the packets.
pub proof fn lemma_stream_join(
    buf: Seq<u8>,
    first: Seq<PacketV>,
    version: u8,
    mid: Seq<u8>,
    second: Seq<PacketV>,
    rest: Seq<u8>,
)
    requires
        stream_accepts(buf, first, version, mid),
        stream_accepts(mid, second, version, rest),
    ensures
        stream_accepts(buf, first + second, version, rest),
    decreases second.len(),
{
    if second.len() == 0 {
        assert(first + second == first);
    } else {
        let (m2, k) = choose|m2: Seq<u8>, k: int| 0 < k <= m2.len() && stream_accepts(mid, second.drop_last(), version, m2)
            && #[trigger] frame_accepts(second.last(), m2.take(k), version) && rest == m2.skip(k);
        lemma_stream_join(buf, first, version, mid, second.drop_last(), m2);
        let all = first + second;
        assert(all.drop_last() == first + second.drop_last());
        assert(all.last() == second.last());
        assert(frame_accepts(all.last(), m2.take(k), version));
    }
}

/// The error of a request that needs a packet identifier when no session
/// has begun.
pub open spec fn no_session_error(e: MqttClientError) -> bool {
    e matches MqttClientError::ProtocolViolation { message } && message@
        == "No session available for packet ID allocation"@
}

/// Whether `buf` begins with bytes that start no frame of `version`: it is
/// neither empty nor cut short, and no prefix of it is an accepted frame.
pub open spec fn malformed_front(buf: Seq<u8>, version: u8) -> bool {
    &&& !(buf.len() == 0 || header_cut(buf) || frame_cut(buf))
    &&& forall|q: PacketV, n: int| 0 < n <= buf.len() ==> !#[trigger] frame_accepts(q, buf.take(n), version)
}

/// What one public call may do to the connection flag and the protocol
/// version: a call other than `handle_incoming` keeps the version and
/// never connects the engine; `handle_incoming` acts on a run of received
/// packets and hands back the events.
pub open spec fn call_step(s: EngineV, t: EngineV) -> bool {
    ||| (t.version == s.version && (t.connected ==> s.connected))
    ||| exists|ps: Seq<MqttPacket>| t == (EngineV { events: seq![], ..#[trigger] apply_all(s, ps) })
}

/// The engine became connected between `s` and `t` only by acting on a run
/// of received packets that holds a CONNACK with reason code 0.
pub open spec fn connects_by_connack(s: EngineV, t: EngineV) -> bool {
    !s.connected && t.connected ==> exists|ps: Seq<MqttPacket>, k: int| #![trigger apply_all(s, ps), ps[k]] {
        &&& t == (EngineV { events: seq![], ..apply_all(s, ps) })
        &&& 0 <= k < ps.len()
        &&& ps[k] matches MqttPacket::ConnAck(a) && a.reason_code == 0
    }
}

/// The views of a list of packets.
pub open spec fn packet_views(ps: Seq<MqttPacket>) -> Seq<PacketV> {
    ps.map_values(|p: MqttPacket| p@)
}

/// `a - b`, or 0 when `b` is later.
pub open spec fn since(a: u64, b: u64) -> u64 {
    if a >= b { (a - b) as u64 } else { 0 }
}

/// `a + b`, or `u64::MAX` when that does not fit.
pub open spec fn later(a: u64, b: u64) -> u64 {
    if a + b <= u64::MAX { (a + b) as u64 } else { u64::MAX }
}

/// The pending publications after a tick at `now`: each one due for
/// retransmission counts as sent again at `now`.
pub open spec fn refreshed(s: Seq<(u16, u64)>, now: u64) -> Seq<(u16, u64)> {
    s.map_values(|e: (u16, u64)| if since(now, e.1) >= RETRANSMIT_AFTER_MS { (e.0, now) } else { e })
}

/// The earliest of `start` and the retransmission times of the pending publications.
pub open spec fn earliest(start: Option<u64>, s: Seq<(u16, u64)>) -> Option<u64>
    decreases s.len(),
{
    if s.len() == 0 {
        start
    } else {
        let c = later(s.last().1, RETRANSMIT_AFTER_MS);
        match earliest(start, s.drop_last()) {
            None => Some(c),
            Some(x) => if c < x { Some(c) } else { Some(x) },
        }
    }
}

/// The next tick falls no later than any deadline the engine keeps, and on
/// one of them.
pub proof fn law_earliest_is_min(start: Option<u64>, s: Seq<(u16, u64)>)
    ensures
        start matches Some(x) ==> earliest(start, s) matches Some(y) && y <= x,
        forall|i: int| 0 <= i < s.len() ==> (earliest(start, s) matches Some(y) && y <= later(#[trigger] s[i].1, RETRANSMIT_AFTER_MS)),
        earliest(start, s) matches Some(y) ==> start == Some(y) || exists|i: int| 0 <= i < s.len() && y == later(
            #[trigger] s[i].1, RETRANSMIT_AFTER_MS),
        s.len() == 0 && start is None ==> earliest(start, s) is None,
    decreases s.len(),
{
    if s.len() > 0 {
        law_earliest_is_min(start, s.drop_last());
        assert forall|i: int| 0 <= i < s.len() implies (earliest(start, s) matches Some(y) && y <= later(#[trigger] s[i].1, RETRANSMIT_AFTER_MS)) by {
            if i < s.len() - 1 {
                assert(s.drop_last()[i] == s[i]);
            }
        }
        if let Some(y) = earliest(start, s) {
            if start != Some(y) {
                if y == later(s.last().1, RETRANSMIT_AFTER_MS) {
                    assert(s[s.len() - 1] == s.last());
                } else {
                    let i = choose|i: int| 0 <= i < s.drop_last().len() && y == later(#[trigger] s.drop_last()[i].1, RETRANSMIT_AFTER_MS);
                    assert(s[i] == s.drop_last()[i]);
                }
            }
        }
    }
}

/// After removal, the identifier is gone and every other one is kept.
pub proof fn lemma_without_id(s: Seq<(u16, u64)>, id: u16)
    ensures
        !has_id(without_id(s, id), id),
        forall|k: u16| k != id ==> (has_id(without_id(s, id), k) <==> has_id(s, k)),
    decreases s.len(),
{
    if s.len() > 0 {
        let d = s.drop_last();
        lemma_without_id(d, id);
        let w = without_id(d, id);
        assert forall|k: u16| k != id implies (has_id(without_id(s, id), k) <==> has_id(s, k)) by {
            if has_id(s, k) {
                let j = choose|j: int| 0 <= j < s.len() && #[trigger] s[j].0 == k;
                if j < s.len() - 1 {
                    assert(d[j].0 == k);
                    assert(has_id(d, k));
                    assert(has_id(w, k));
                    if s.last().0 != id {
                        let jj = choose|jj: int| 0 <= jj < w.len() && #[trigger] w[jj].0 == k;
                        assert(w.push(s.last())[jj].0 == k);
                    }
                } else {
                    assert(s.last().0 == k);
                    assert(w.push(s.last())[w.len() as int].0 == k);
                }
            }
            if has_id(without_id(s, id), k) {
                let r = without_id(s, id);
                let j = choose|j: int| 0 <= j < r.len() && #[trigger] r[j].0 == k;
                if s.last().0 == id || j < w.len() {
                    assert(w[j].0 == k);
                    assert(has_id(w, k));
                    assert(has_id(d, k));
                    let jj = choose|jj: int| 0 <= jj < d.len() && #[trigger] d[jj].0 == k;
                    assert(s[jj].0 == k);
                } else {
                    assert(s[s.len() - 1].0 == k);
                }
            }
        }
        if s.last().0 != id {
            assert(!has_id(w.push(s.last()), id)) by {
                if has_id(w.push(s.last()), id) {
                    let j = choose|j: int| 0 <= j < w.push(s.last()).len() && #[trigger] w.push(s.last())[j].0 == id;
                    if j < w.len() {
                        assert(w[j].0 == id);
                    }
                }
            }
        }
    }
}

/// A publication recorded under an identifier awaits acknowledgement, and
/// the acknowledgement for it removes exactly that record.
pub proof fn law_record_then_settle(s: Seq<(u16, u64)>, id: u16, t: u64)
    ensures
        has_id(with_id(s, id, t), id),
        without_id(with_id(s, id, t), id) == without_id(s, id),
        !has_id(without_id(with_id(s, id, t), id), id),
{
    let w = without_id(s, id);
    assert(with_id(s, id, t)[w.len() as int].0 == id);
    lemma_without_id(s, id);
    lemma_without_absent(w, id);
    assert(with_id(s, id, t).drop_last() == w);
    lemma_without_id(with_id(s, id, t), id);
}

/// A PUBACK or PUBCOMP settles the publication awaiting it and reports it
/// once; a second one, or one for no pending publication, changes nothing.
pub proof fn law_ack_settles(s: EngineV, a: MqttAck, qos: u8)
    ensures
        has_id(s.pending_publishes, a.packet_id) ==> !has_id(acknowledged(s, a, qos).pending_publishes, a.packet_id)
            && acknowledged(s, a, qos).events.len() == s.events.len() + 1
            && acknowledged(s, a, qos).events.last() is Published,
        has_id(s.pending_publishes, a.packet_id) ==> acknowledged(acknowledged(s, a, qos), a, qos) == acknowledged(s, a, qos),
        !has_id(s.pending_publishes, a.packet_id) ==> acknowledged(s, a, qos) == s,
{
    lemma_without_id(s.pending_publishes, a.packet_id);
}

/// A QoS 1 message is answered with PUBACK and a QoS 2 message with PUBREC,
/// both under the message's identifier; each message is reported once.
pub proof fn law_incoming_publish_answered(s: EngineV, x: MqttPublish)
    ensures
        apply_packet(s, MqttPacket::Publish(x)).events == s.events.push(MqttEvent::MessageReceived(x)),
        x.qos == 1 && x.packet_id is Some ==> apply_packet(s, MqttPacket::Publish(x)).outgoing
            == s.outgoing.push(packet_bytes(PacketV::PubAck(plain_ack(x.packet_id->0)), s.version)),
        x.qos == 2 && x.packet_id is Some ==> apply_packet(s, MqttPacket::Publish(x)).outgoing
            == s.outgoing.push(packet_bytes(PacketV::PubRec(plain_ack(x.packet_id->0)), s.version)),
        x.qos == 0 ==> apply_packet(s, MqttPacket::Publish(x)).outgoing == s.outgoing,
{
}

/// CONNACK with reason code 0 connects the engine and any other code leaves
/// it disconnected; an MQTT 5 DISCONNECT from the server disconnects it.
pub proof fn law_connection_state(s: EngineV, a: crate::codec::packet::MqttConnAck, d: MqttReason)
    ensures
        apply_packet(s, MqttPacket::ConnAck(a)).connected == (a.reason_code == 0),
        s.version == 5 ==> !apply_packet(s, MqttPacket::Disconnect(d)).connected,
{
}

/// Whether every queued publication with a QoS above 0 carries its identifier.
pub open spec fn queue_has_ids(q: Seq<(u8, PublishCommand)>) -> bool {
    forall|i: int| 0 <= i < q.len() && #[trigger] q[i].1.qos > 0 ==> q[i].1.packet_id is Some
}

impl MqttEngine {
    /// The options the engine was made with.
    pub closed spec fn spec_options(&self) -> MqttClientOptions {
        self.options
    }

    /// When a frame was last queued, in milliseconds on the engine's clock.
    pub closed spec fn last_sent(&self) -> u64 {
        self.last_packet_sent
    }

    /// When bytes last arrived, in milliseconds on the engine's clock.
    pub closed spec fn last_received(&self) -> u64 {
        self.last_packet_received
    }

    /// The bytes received and not yet read as packets.
    pub closed spec fn unparsed(&self) -> Seq<u8> {
        self.parser.pending()
    }

    /// The internal invariant.
    pub closed spec fn wf(&self) -> bool {
        &&& self.session matches Some(s) ==> s.wf()
        &&& self.priority_queue.wf()
        &&& self.priority_queue.spec_capacity() == QUEUE_CAPACITY
        &&& queue_has_ids(self.priority_queue@)
        &&& self.parser.spec_version() == self.mqtt_version
        &&& self.mqtt_version == self.options.mqtt_version
    }

    /// A disconnected engine with nothing pending.
    pub fn new(options: MqttClientOptions) -> (r: Self)
        ensures
            r.wf(),
            r.spec_options() == options,
            r@ == (EngineV {
                connected: false,
                version: options.mqtt_version,
                session: None,
                queue: seq![],
                outgoing: seq![],
                pending_publishes: seq![],
                pending_subscribes: Map::empty(),
                pending_unsubscribes: Map::empty(),
                events: seq![],
            }),
            r.unparsed() == Seq::<u8>::empty(),
    {
        let mqtt_version = options.mqtt_version;
        let parser = MqttParser::new(RECEIVE_BUFFER_SIZE, mqtt_version);
        let origin = instant_now();
        let now = millis_since(&origin);
        let r = MqttEngine {
            options,
            session: None,
            priority_queue: PriorityQueue::new(QUEUE_CAPACITY),
            is_connected: false,
            origin,
            last_packet_sent: now,
            last_packet_received: now,
            parser,
            outgoing_buffer: Vec::new(),
            pending_subscribes: HashMap::new(),
            pending_unsubscribes: HashMap::new(),
            pending_publishes: Vec::new(),
            mqtt_version,
            events: Vec::new(),
        };
        assert(frames_view(r.outgoing_buffer@) == Seq::<Seq<u8>>::empty());
        r
    }

    /// Milliseconds since the engine was made: the clock that `handle_tick`
    /// and `next_tick_at` count in.
    pub fn elapsed_millis(&self) -> u64 {
        millis_since(&self.origin)
    }

    /// Takes the events not yet taken.
    pub fn take_events(&mut self) -> (r: Vec<MqttEvent>)
        ensures
            call_step(old(self)@, final(self)@),
            r@ == old(self)@.events,
            final(self)@ == (EngineV { events: seq![], ..old(self)@ }),
            final(self).wf() == old(self).wf(),
            final(self).spec_options() == old(self).spec_options(),
            final(self).last_sent() == old(self).last_sent(),
            final(self).last_received() == old(self).last_received(),
            final(self).unparsed() == old(self).unparsed(),
    {
        let mut taken: Vec<MqttEvent> = Vec::new();
        std::mem::swap(&mut taken, &mut self.events);
        taken
    }

    pub fn options(&self) -> (r: &MqttClientOptions)
        ensures
            *r == self.spec_options(),
    {
        &self.options
    }

    pub fn is_connected(&self) -> (r: bool)
        ensures
            r == self@.connected,
    {
        self.is_connected
    }

    /// Marks the connection as gone.
    pub fn handle_connection_lost(&mut self)
        ensures
            call_step(old(self)@, final(self)@),
            final(self)@ == (EngineV { connected: false, ..old(self)@ }),
            final(self).wf() == old(self).wf(),
            final(self).spec_options() == old(self).spec_options(),
            final(self).last_sent() == old(self).last_sent(),
            final(self).last_received() == old(self).last_received(),
            final(self).unparsed() == old(self).unparsed(),
    {
        self.is_connected = false;
    }

    pub fn mqtt_version(&self) -> (r: u8)
        ensures
            r == self@.version,
    {
        self.mqtt_version
    }

    /// Takes the bytes waiting to be sent, all frames one after another.
    pub fn take_outgoing(&mut self) -> (r: Vec<u8>)
        ensures
            call_step(old(self)@, final(self)@),
            r@ == concat_frames(old(self)@.outgoing),
            final(self)@ == (EngineV { outgoing: seq![], ..old(self)@ }),
            final(self).wf() == old(self).wf(),
            final(self).spec_options() == old(self).spec_options(),
            final(self).last_sent() == old(self).last_sent(),
            final(self).last_received() == old(self).last_received(),
            final(self).unparsed() == old(self).unparsed(),
    {
        let mut all_bytes: Vec<u8> = Vec::new();
        let mut i: usize = 0;
        while i < self.outgoing_buffer.len()
            invariant
                i <= self.outgoing_buffer@.len(),
                self == old(self),
                all_bytes@ == concat_frames(frames_view(self.outgoing_buffer@).take(i as int)),
            decreases self.outgoing_buffer@.len() - i,
        {
            let ghost f = frames_view(self.outgoing_buffer@);
            crate::codec::wire::put_bytes(&mut all_bytes, self.outgoing_buffer[i].as_slice());
            assert(f.take(i + 1).drop_last() == f.take(i as int));
            i += 1;
        }
        assert(frames_view(self.outgoing_buffer@).take(i as int) == frames_view(self.outgoing_buffer@));
        self.outgoing_buffer = Vec::new();
        assert(frames_view(self.outgoing_buffer@) == Seq::<Seq<u8>>::empty());
        all_bytes
    }

    /// Queues the encoding of `packet` in the given version, if it has one.
    fn enqueue_packet_as(&mut self, packet: MqttPacket, version: u8)
        ensures
            final(self)@ == (EngineV { outgoing: push_frame(old(self)@.outgoing, packet@, version), ..old(self)@ }),
            final(self).wf() == old(self).wf(),
            final(self).spec_options() == old(self).spec_options(),
            final(self)@.outgoing == old(self)@.outgoing ==> final(self).last_sent() == old(self).last_sent(),
            final(self).last_received() == old(self).last_received(),
            final(self).unparsed() == old(self).unparsed(),
    {
        match encode_packet(&packet, version) {
            Some(bytes) => {
                let ghost b = bytes@;
                self.outgoing_buffer.push(bytes);
                self.last_packet_sent = millis_since(&self.origin);
                assert(frames_view(self.outgoing_buffer@) == frames_view(old(self).outgoing_buffer@).push(b));
                assert(final(self)@.outgoing != old(self)@.outgoing) by {
                    assert(final(self)@.outgoing.len() == old(self)@.outgoing.len() + 1);
                }
            },
            None => {},
        }
    }

    /// Queues the encoding of `packet` in the engine's protocol version, if
    /// it has one.
    pub fn enqueue_packet(&mut self, packet: MqttPacket)
        ensures
            call_step(old(self)@, final(self)@),
            final(self)@ == (EngineV { outgoing: push_frame(old(self)@.outgoing, packet@, old(self)@.version), ..old(self)@ }),
            final(self).wf() == old(self).wf(),
            final(self).spec_options() == old(self).spec_options(),
            final(self)@.outgoing == old(self)@.outgoing ==> final(self).last_sent() == old(self).last_sent(),
            final(self).last_received() == old(self).last_received(),
            final(self).unparsed() == old(self).unparsed(),
    {
        let version = self.mqtt_version;
        self.enqueue_packet_as(packet, version);
    }

    /// Hands out the session's next packet identifier; an error when no
    /// session has begun.
    pub fn next_packet_id(&mut self) -> (r: Result<u16, MqttClientError>)
        requires
            old(self).wf(),
        ensures
            call_step(old(self)@, final(self)@),
            final(self).wf(),
            final(self).spec_options() == old(self).spec_options(),
            final(self).last_sent() == old(self).last_sent(),
            final(self).last_received() == old(self).last_received(),
            final(self).unparsed() == old(self).unparsed(),
            match old(self)@.session {
                None => (r matches Err(e) && no_session_error(e)) && final(self)@ == old(self)@,
                Some(id) => r == Ok::<u16, MqttClientError>(id) && id != 0
                    && final(self)@ == (EngineV { session: Some(following_id(id)), ..old(self)@ }),
            },
    {
        match &mut self.session {
            Some(session) => {
                let id = session.next_packet_id();
                Ok(id)
            },
            None => Err(MqttClientError::ProtocolViolation {
                message: "No session available for packet ID allocation".to_owned(),
            }),
        }
    }

    /// Queues a PINGREQ.
    pub fn send_ping(&mut self)
        ensures
            call_step(old(self)@, final(self)@),
            final(self)@ == (EngineV { outgoing: old(self)@.outgoing.push(packet_bytes(PacketV::PingReq, old(self)@.version)), ..old(self)@ }),
            final(self).wf() == old(self).wf(),
            final(self).spec_options() == old(self).spec_options(),
            final(self).last_received() == old(self).last_received(),
            final(self).unparsed() == old(self).unparsed(),
    {
        self.enqueue_packet(MqttPacket::PingReq);
    }

    /// Queues a DISCONNECT (reason 0) and marks the engine disconnected;
    /// does nothing when not connected.
    pub fn disconnect(&mut self)
        ensures
            call_step(old(self)@, final(self)@),
            !old(self)@.connected ==> final(self)@ == old(self)@ && final(self).last_sent() == old(self).last_sent(),
            old(self)@.connected ==> final(self)@ == (EngineV {
                connected: false,
                outgoing: old(self)@.outgoing.push(packet_bytes(PacketV::Disconnect(ReasonV { reason_code: 0, properties: seq![] }), old(self)@.version)),
                ..old(self)@
            }),
            final(self).wf() == old(self).wf(),
            final(self).spec_options() == old(self).spec_options(),
            final(self).last_received() == old(self).last_received(),
            final(self).unparsed() == old(self).unparsed(),
    {
        if !self.is_connected {
            return;
        }
        let props: Vec<Property> = Vec::new();
        assert(views(props@) == Seq::<PropertyV>::empty());
        self.enqueue_packet(MqttPacket::Disconnect(MqttReason { reason_code: 0, properties: props }));
        self.is_connected = false;
    }

    /// Queues an AUTH packet; only MQTT 5 has one, so nothing happens in 3.1.1.
    #[verifier::rlimit(30)]
    pub fn auth(&mut self, reason_code: u8, properties: Vec<Property>)
        ensures
            call_step(old(self)@, final(self)@),
            old(self)@.version != 5 ==> final(self)@ == old(self)@ && final(self).last_sent() == old(self).last_sent(),
            old(self)@.version == 5 ==> final(self)@ == (EngineV {
                outgoing: push_frame(old(self)@.outgoing, PacketV::Auth(ReasonV { reason_code, properties: views(properties@) }), 5),
                ..old(self)@
            }),
            final(self).wf() == old(self).wf(),
            final(self).spec_options() == old(self).spec_options(),
            final(self).last_received() == old(self).last_received(),
            final(self).unparsed() == old(self).unparsed(),
    {
        if self.mqtt_version == 5 {
            self.enqueue_packet(MqttPacket::Auth(MqttReason { reason_code, properties }));
        }
    }

    /// Queues a CONNECT built from the options, starting a session if none
    /// has begun; does nothing when already connected. In MQTT 3.1.1 the
    /// CONNECT carries neither user name nor password.
    pub fn connect(&mut self)
        requires
            old(self).wf(),
        ensures
            call_step(old(self)@, final(self)@),
            final(self).wf(),
            final(self).spec_options() == old(self).spec_options(),
            final(self).last_received() == old(self).last_received(),
            final(self).unparsed() == old(self).unparsed(),
            old(self)@.connected ==> final(self)@ == old(self)@ && final(self).last_sent() == old(self).last_sent(),
            !old(self)@.connected ==> final(self)@ == (EngineV {
                session: Some(match old(self)@.session { Some(id) => id, None => 1u16 }),
                outgoing: push_frame(old(self)@.outgoing,
                    PacketV::Connect(connect_view(old(self).spec_options(), old(self)@.version)), old(self)@.version),
                ..old(self)@
            }),
    {
        if self.is_connected {
            return;
        }
        if self.session.is_none() {
            self.session = Some(ClientSession::new());
        }
        let props: Vec<Property> = Vec::new();
        assert(views(props@) == Seq::<PropertyV>::empty());
        let connect = if self.mqtt_version == 5 {
            MqttConnect {
                client_id: self.options.client_id.clone(),
                username: match &self.options.username {
                    Some(u) => Some(u.clone()),
                    None => None,
                },
                password: match &self.options.password {
                    Some(p) => Some(copy_bytes(p)),
                    None => None,
                },
                will: None,
                keep_alive: self.options.keep_alive,
                clean_start: self.options.clean_start,
                properties: props,
            }
        } else {
            MqttConnect {
                client_id: self.options.client_id.clone(),
                username: None,
                password: None,
                will: None,
                keep_alive: self.options.keep_alive,
                clean_start: self.options.clean_start,
                properties: props,
            }
        };
        assert(connect@ == connect_view(self.options, self.mqtt_version));
        self.enqueue_packet(MqttPacket::Connect(connect));
    }

    /// Forgets the pending publication under `id`; says whether there was one.
    fn remove_pending_publish(&mut self, id: u16) -> (found: bool)
        ensures
            found == has_id(old(self)@.pending_publishes, id),
            final(self)@ == (EngineV { pending_publishes: without_id(old(self)@.pending_publishes, id), ..old(self)@ }),
            !found ==> final(self)@ == old(self)@,
            final(self).wf() == old(self).wf(),
            final(self).spec_options() == old(self).spec_options(),
            final(self).last_sent() == old(self).last_sent(),
            final(self).last_received() == old(self).last_received(),
            final(self).unparsed() == old(self).unparsed(),
    {
        let mut kept: Vec<(u16, u64)> = Vec::new();
        let mut found = false;
        proof {
            if !has_id(self.pending_publishes@, id) {
                lemma_without_absent(self.pending_publishes@, id);
            }
        }
        let mut i: usize = 0;
        while i < self.pending_publishes.len()
            invariant
                self == old(self),
                i <= self.pending_publishes@.len(),
                kept@ == without_id(self.pending_publishes@.take(i as int), id),
                found == has_id(self.pending_publishes@.take(i as int), id),
            decreases self.pending_publishes@.len() - i,
        {
            let e = self.pending_publishes[i];
            let ghost s = self.pending_publishes@;
            assert(s.take(i + 1).drop_last() == s.take(i as int));
            assert(s.take(i + 1).last() == e);
            if e.0 != id {
                kept.push(e);
            } else {
                found = true;
            }
            proof {
                if has_id(s.take(i + 1), id) && e.0 != id {
                    let j = choose|j: int| 0 <= j < s.take(i + 1).len() && #[trigger] s.take(i + 1)[j].0 == id;
                    assert(s.take(i as int)[j].0 == id);
                }
                if has_id(s.take(i as int), id) {
                    let j = choose|j: int| 0 <= j < s.take(i as int).len() && #[trigger] s.take(i as int)[j].0 == id;
                    assert(s.take(i + 1)[j].0 == id);
                }
                if e.0 == id {
                    assert(s.take(i + 1)[i as int].0 == id);
                }
            }
            i += 1;
        }
        assert(self.pending_publishes@.take(i as int) == self.pending_publishes@);
        self.pending_publishes = kept;
        found
    }

    /// Records a publication under `id` as sent at time `t`.
    fn record_pending_publish(&mut self, id: u16, t: u64)
        ensures
            final(self)@ == (EngineV { pending_publishes: with_id(old(self)@.pending_publishes, id, t), ..old(self)@ }),
            final(self).wf() == old(self).wf(),
            final(self).spec_options() == old(self).spec_options(),
            final(self).last_sent() == old(self).last_sent(),
            final(self).last_received() == old(self).last_received(),
            final(self).unparsed() == old(self).unparsed(),
    {
        self.remove_pending_publish(id);
        self.pending_publishes.push((id, t));
    }

    /// Sends every held-back publication, highest priority first, when
    /// connected.
    fn process_queue(&mut self)
        requires
            old(self).wf(),
        ensures
            final(self).wf(),
            final(self).spec_options() == old(self).spec_options(),
            final(self).last_received() == old(self).last_received(),
            final(self).unparsed() == old(self).unparsed(),
            !old(self)@.connected ==> final(self)@ == old(self)@ && final(self).last_sent() == old(self).last_sent(),
            old(self)@.connected ==> final(self)@ == (EngineV {
                queue: seq![],
                outgoing: publish_frames(old(self)@.outgoing, old(self)@.queue, old(self)@.version),
                ..old(self)@
            }),
    {
        if !self.is_connected {
            return;
        }
        let ghost q0 = self.priority_queue@;
        let ghost k: int = 0;
        assert(q0.skip(0) == q0);
        assert(q0.take(0) == Seq::<(u8, PublishCommand)>::empty());
        loop
            invariant
                self.wf(),
                self.spec_options() == old(self).spec_options(),
                self.last_received() == old(self).last_received(),
                self.unparsed() == old(self).unparsed(),
                q0 == old(self)@.queue,
                0 <= k <= q0.len(),
                self@ == (EngineV {
                    queue: q0.skip(k),
                    outgoing: publish_frames(old(self)@.outgoing, q0.take(k), old(self)@.version),
                    ..old(self)@
                }),
            ensures
                self.wf(),
                self.spec_options() == old(self).spec_options(),
                self.last_received() == old(self).last_received(),
                self.unparsed() == old(self).unparsed(),
                self@ == (EngineV {
                    queue: seq![],
                    outgoing: publish_frames(old(self)@.outgoing, q0, old(self)@.version),
                    ..old(self)@
                }),
            decreases q0.len() - k,
        {
            match self.priority_queue.dequeue() {
                Some((_priority, mut command)) => {
                    assert(q0.skip(k)[0] == q0[k]);
                    assert(command == q0[k].1);
                    if command.qos > 0 && command.packet_id.is_none() {
                        match self.next_packet_id() {
                            Ok(id) => {
                                let now = millis_since(&self.origin);
                                self.record_pending_publish(id, now);
                                command.packet_id = Some(id);
                            },
                            Err(e) => {
                                self.events.push(MqttEvent::Error(e));
                                continue;
                            },
                        }
                    }
                    let packet = MqttPacket::Publish(command.to_mqtt_publish());
                    self.enqueue_packet(packet);
                    proof {
                        assert(q0.take(k + 1).drop_last() == q0.take(k));
                        assert(q0.take(k + 1).last() == q0[k]);
                        assert(q0.skip(k).drop_first() == q0.skip(k + 1));
                        k = k + 1;
                    }
                },
                None => {
                    proof {
                        assert(q0.take(k) == q0);
                        assert(q0.skip(k) == Seq::<(u8, PublishCommand)>::empty());
                    }
                    break;
                },
            }
        }
    }

    /// Publishes a message. A QoS 1 or 2 message without an identifier gets
    /// the session's next one, which fails when no session has begun; the
    /// message is then recorded as awaiting acknowledgement. The message
    /// joins the queue (unless it is full), and the queue is sent at once
    /// when connected.
    pub fn publish(&mut self, command: PublishCommand) -> (r: Result<Option<u16>, MqttClientError>)
        requires
            old(self).wf(),
        ensures
            call_step(old(self)@, final(self)@),
            final(self).wf(),
            final(self).spec_options() == old(self).spec_options(),
            final(self).last_received() == old(self).last_received(),
            final(self).unparsed() == old(self).unparsed(),
            publish_fails(old(self)@, command) ==> (r matches Err(e) && no_session_error(e)) && final(self)@ == old(self)@
                && final(self).last_sent() == old(self).last_sent(),
            !publish_fails(old(self)@, command) ==> r == Ok::<Option<u16>, MqttClientError>(publish_id(old(self)@, command))
                && exists|t: u64, q1: Seq<(u8, PublishCommand)>| enqueued(old(self)@.queue, command.priority,
                with_publish_id(old(self)@, command), q1) && final(self)@ == #[trigger] publish_outcome(old(self)@,
                command, t, q1),
    {
        let ghost o = self@;
        let mut command = command;
        let ghost c0 = command;
        let pid: Option<u16> = if command.qos > 0 {
            match command.packet_id {
                Some(id) => Some(id),
                None => {
                    let id = match self.next_packet_id() {
                        Ok(id) => id,
                        Err(e) => return Err(e),
                    };
                    command.packet_id = Some(id);
                    Some(id)
                },
            }
        } else {
            None
        };
        let ghost o1 = self@;
        let ghost t: u64 = 0;
        match pid {
            Some(id) => {
                let now = millis_since(&self.origin);
                self.record_pending_publish(id, now);
                proof {
                    t = now;
                }
            },
            None => {},
        }
        let ghost c1 = command;
        assert(c1 == with_publish_id(o, c0));
        let priority = command.priority;
        let ghost qb = self.priority_queue@;
        self.priority_queue.enqueue(priority, command);
        let ghost q1 = self.priority_queue@;
        assert(enqueued(qb, priority, c1, q1));
        self.process_queue();
        assert(self@ == publish_outcome(o, c0, t, q1));
        Ok(pid)
    }

    /// Subscribes to topic filters, under the request's own identifier or
    /// the session's next one (an error when no session has begun). The
    /// filters are recorded as awaiting SUBACK, and the SUBSCRIBE is always
    /// encoded in MQTT 5.
    pub fn subscribe(&mut self, command: SubscribeCommand) -> (r: Result<u16, MqttClientError>)
        requires
            old(self).wf(),
        ensures
            call_step(old(self)@, final(self)@),
            final(self).wf(),
            final(self).spec_options() == old(self).spec_options(),
            final(self).last_received() == old(self).last_received(),
            final(self).unparsed() == old(self).unparsed(),
            command.packet_id is None && old(self)@.session is None ==> (r matches Err(e) && no_session_error(e)) && final(self)@ == old(self)@
                && final(self).last_sent() == old(self).last_sent(),
            !(command.packet_id is None && old(self)@.session is None) ==> {
                let id = request_id(old(self)@, command.packet_id);
                &&& r == Ok::<u16, MqttClientError>(id)
                &&& final(self)@.pending_subscribes.contains_key(id)
                &&& final(self)@.pending_subscribes[id]@ == command.subscriptions@.map_values(
                    |t: crate::codec::packet::TopicSubscription| t.topic_filter)
                &&& final(self)@ == (EngineV {
                    session: session_after(old(self)@, command.packet_id is None),
                    pending_subscribes: old(self)@.pending_subscribes.insert(id, final(self)@.pending_subscribes[id]),
                    outgoing: push_frame(old(self)@.outgoing, PacketV::Subscribe((MqttSubscribe {
                        packet_id: id,
                        subscriptions: command.subscriptions,
                        properties: command.properties,
                    })@), 5),
                    ..old(self)@
                })
            },
    {
        let ghost c = command;
        let pid = match command.packet_id {
            Some(id) => id,
            None => match self.next_packet_id() {
                Ok(id) => id,
                Err(e) => return Err(e),
            },
        };
        let mut topics: Vec<String> = Vec::new();
        let mut i: usize = 0;
        while i < command.subscriptions.len()
            invariant
                i <= command.subscriptions@.len(),
                topics@ == command.subscriptions@.take(i as int).map_values(
                    |t: crate::codec::packet::TopicSubscription| t.topic_filter),
            decreases command.subscriptions@.len() - i,
        {
            topics.push(command.subscriptions[i].topic_filter.clone());
            assert(command.subscriptions@.take(i + 1).map_values(|t: crate::codec::packet::TopicSubscription| t.topic_filter)
                == command.subscriptions@.take(i as int).map_values(|t: crate::codec::packet::TopicSubscription| t.topic_filter).push(
                command.subscriptions@[i as int].topic_filter));
            i += 1;
        }
        assert(command.subscriptions@.take(i as int) == command.subscriptions@);
        self.pending_subscribes.insert(pid, topics);
        let packet = MqttPacket::Subscribe(MqttSubscribe {
            packet_id: pid,
            subscriptions: command.subscriptions,
            properties: command.properties,
        });
        self.enqueue_packet_as(packet, 5);
        Ok(pid)
    }

    /// Unsubscribes from topic filters, under the request's own identifier
    /// or the session's next one (an error when no session has begun). The
    /// filters are recorded as awaiting UNSUBACK.
    pub fn unsubscribe(&mut self, command: UnsubscribeCommand) -> (r: Result<u16, MqttClientError>)
        requires
            old(self).wf(),
        ensures
            call_step(old(self)@, final(self)@),
            final(self).wf(),
            final(self).spec_options() == old(self).spec_options(),
            final(self).last_received() == old(self).last_received(),
            final(self).unparsed() == old(self).unparsed(),
            command.packet_id is None && old(self)@.session is None ==> (r matches Err(e) && no_session_error(e)) && final(self)@ == old(self)@
                && final(self).last_sent() == old(self).last_sent(),
            !(command.packet_id is None && old(self)@.session is None) ==> {
                let id = request_id(old(self)@, command.packet_id);
                &&& r == Ok::<u16, MqttClientError>(id)
                &&& final(self)@.pending_unsubscribes.contains_key(id)
                &&& final(self)@.pending_unsubscribes[id]@ == command.topics@
                &&& final(self)@ == (EngineV {
                    session: session_after(old(self)@, command.packet_id is None),
                    pending_unsubscribes: old(self)@.pending_unsubscribes.insert(id, final(self)@.pending_unsubscribes[id]),
                    outgoing: push_frame(old(self)@.outgoing, PacketV::Unsubscribe((MqttUnsubscribe {
                        packet_id: id,
                        topics: command.topics,
                        properties: command.properties,
                    })@), old(self)@.version),
                    ..old(self)@
                })
            },
    {
        let pid = match command.packet_id {
            Some(id) => id,
            None => match self.next_packet_id() {
                Ok(id) => id,
                Err(e) => return Err(e),
            },
        };
        let recorded = copy_strings(&command.topics);
        self.pending_unsubscribes.insert(pid, recorded);
        let packet = MqttPacket::Unsubscribe(MqttUnsubscribe {
            packet_id: pid,
            topics: command.topics,
            properties: command.properties,
        });
        self.enqueue_packet(packet);
        Ok(pid)
    }

    /// Queues an acknowledgement with reason code 0 and no properties.
    fn enqueue_plain_ack(&mut self, packet: MqttPacket, Ghost(v): Ghost<PacketV>)
        requires
            packet@ == v,
            v == PacketV::PubAck(plain_ack(v->PubAck_0.packet_id)) || v == PacketV::PubRec(plain_ack(v->PubRec_0.packet_id))
                || v == PacketV::PubRel(plain_ack(v->PubRel_0.packet_id)) || v == PacketV::PubComp(plain_ack(v->PubComp_0.packet_id)),
        ensures
            final(self)@ == (EngineV { outgoing: old(self)@.outgoing.push(packet_bytes(v, old(self)@.version)), ..old(self)@ }),
            final(self)@.outgoing.len() == old(self)@.outgoing.len() + 1,
            final(self).wf() == old(self).wf(),
            final(self).spec_options() == old(self).spec_options(),
            final(self).last_received() == old(self).last_received(),
            final(self).unparsed() == old(self).unparsed(),
    {
        assert(crate::codec::property::props_bytes(Seq::<PropertyV>::empty()) == Seq::<u8>::empty());
        assert(packet_ok(v, self.mqtt_version));
        self.enqueue_packet(packet);
    }

    /// An acknowledgement packet's fields: the identifier, reason code 0, no properties.
    fn plain_ack_packet(id: u16) -> (r: MqttAck)
        ensures
            r@ == plain_ack(id),
    {
        let props: Vec<Property> = Vec::new();
        assert(views(props@) == Seq::<PropertyV>::empty());
        MqttAck { packet_id: id, reason_code: 0, properties: props }
    }

    /// Acts on one packet received from the server.
    fn handle_packet(&mut self, packet: MqttPacket)
        requires
            old(self).wf(),
        ensures
            final(self).wf(),
            final(self)@ == apply_packet(old(self)@, packet),
            final(self).spec_options() == old(self).spec_options(),
            final(self).last_received() == old(self).last_received(),
            final(self).unparsed() == old(self).unparsed(),
            final(self)@.outgoing == old(self)@.outgoing ==> final(self).last_sent() == old(self).last_sent(),
    {
        let ghost pk = packet;
        let ghost o = self@;
        match packet {
            MqttPacket::ConnAck(ack) => {
                self.is_connected = ack.reason_code == 0;
                let properties = if self.mqtt_version == 5 { Some(ack.properties) } else { None };
                self.events.push(MqttEvent::Connected(ConnectionResult {
                    reason_code: ack.reason_code,
                    session_present: ack.session_present,
                    properties,
                }));
                assert(self@ == apply_packet(o, pk));
            },
            MqttPacket::PubAck(ack) => {
                if self.remove_pending_publish(ack.packet_id) {
                    let v5 = self.mqtt_version == 5;
                    self.events.push(MqttEvent::Published(PublishResult {
                        packet_id: Some(ack.packet_id),
                        reason_code: Some(if v5 { ack.reason_code } else { 0 }),
                        properties: if v5 { Some(ack.properties) } else { None },
                        qos: 1,
                    }));
                }
                assert(self@ == apply_packet(o, pk));
            },
            MqttPacket::PubComp(comp) => {
                if self.remove_pending_publish(comp.packet_id) {
                    let v5 = self.mqtt_version == 5;
                    self.events.push(MqttEvent::Published(PublishResult {
                        packet_id: Some(comp.packet_id),
                        reason_code: Some(if v5 { comp.reason_code } else { 0 }),
                        properties: if v5 { Some(comp.properties) } else { None },
                        qos: 2,
                    }));
                }
                assert(self@ == apply_packet(o, pk));
            },
            MqttPacket::Publish(p) => {
                let qos = p.qos;
                let pid = p.packet_id;
                self.events.push(MqttEvent::MessageReceived(p));
                if qos == 1 {
                    if let Some(id) = pid {
                        let a = Self::plain_ack_packet(id);
                        self.enqueue_plain_ack(MqttPacket::PubAck(a), Ghost(PacketV::PubAck(plain_ack(id))));
                    }
                } else if qos == 2 {
                    if let Some(id) = pid {
                        let a = Self::plain_ack_packet(id);
                        self.enqueue_plain_ack(MqttPacket::PubRec(a), Ghost(PacketV::PubRec(plain_ack(id))));
                    }
                }
                assert(self@ == apply_packet(o, pk));
            },
            MqttPacket::SubAck(ack) => {
                let _topics = self.pending_subscribes.remove(&ack.packet_id);
                self.events.push(MqttEvent::Subscribed(SubscribeResult {
                    packet_id: ack.packet_id,
                    reason_codes: ack.reason_codes,
                    properties: ack.properties,
                }));
                assert(self@ == apply_packet(o, pk));
            },
            MqttPacket::UnsubAck(ack) => {
                let _topics = self.pending_unsubscribes.remove(&ack.packet_id);
                self.events.push(MqttEvent::Unsubscribed(UnsubscribeResult {
                    packet_id: ack.packet_id,
                    reason_codes: ack.reason_codes,
                    properties: ack.properties,
                }));
                assert(self@ == apply_packet(o, pk));
            },
            MqttPacket::PingResp => {
                self.events.push(MqttEvent::PingResponse(PingResult { success: true }));
                assert(self@ == apply_packet(o, pk));
            },
            MqttPacket::PubRec(rec) => {
                let id = rec.packet_id;
                let a = Self::plain_ack_packet(id);
                self.enqueue_plain_ack(MqttPacket::PubRel(a), Ghost(PacketV::PubRel(plain_ack(id))));
                assert(self@ == apply_packet(o, pk));
            },
            MqttPacket::PubRel(rel) => {
                let id = rel.packet_id;
                let a = Self::plain_ack_packet(id);
                self.enqueue_plain_ack(MqttPacket::PubComp(a), Ghost(PacketV::PubComp(plain_ack(id))));
                assert(self@ == apply_packet(o, pk));
            },
            MqttPacket::Disconnect(d) => {
                if self.mqtt_version == 5 {
                    self.is_connected = false;
                    self.events.push(MqttEvent::Disconnected(Some(d.reason_code)));
                }
                assert(self@ == apply_packet(o, pk));
            },
            _ => {},
        }
    }

    /// Takes bytes received from the network at `now`, which becomes the
    /// time of the last receipt: every packet they complete is acted on in
    /// order, and the events so far are returned. Reading stops at bytes that
    /// only begin a frame (they wait for more), or at bytes that start no
    /// frame at all, which is reported as an error event; those bytes stay
    /// unread.
    pub fn handle_incoming(&mut self, data: &[u8], now: u64) -> (r: Vec<MqttEvent>)
        requires
            old(self).wf(),
        ensures
            call_step(old(self)@, final(self)@),
            final(self).wf(),
            final(self).spec_options() == old(self).spec_options(),
            final(self).last_received() == now,
            exists|ps: Seq<MqttPacket>| #[trigger] reads_incoming(old(self)@, old(self).unparsed() + data@, ps, final(self)@,
                final(self).unparsed(), r@),
    {
        self.parser.feed(data);
        self.last_packet_received = now;
        let ghost buf0 = self.parser.pending();
        let ghost s0 = self@;
        let ghost mut ps: Seq<MqttPacket> = seq![];
        let ghost mut failed = false;
        assert(s0 == old(self)@);
        assert(packet_views(ps) == Seq::<PacketV>::empty());
        assert forall|qs: Seq<PacketV>, other: Seq<u8>| #[trigger] stream_accepts(buf0, qs, s0.version, other)
            && !starts_frame(other, s0.version) implies ps.len() <= qs.len() && qs.take(ps.len() as int) == packet_views(ps)
            && stream_accepts(self.unparsed(), qs.skip(ps.len() as int), s0.version, other) by {
            assert(qs.skip(0) == qs);
            assert(qs.take(0) == Seq::<PacketV>::empty());
        }
        loop
            invariant_except_break
                self.wf(),
                self.spec_options() == old(self).spec_options(),
                self.last_received() == now,
                self@.version == s0.version,
                self@ == apply_all(s0, ps),
                stream_accepts(buf0, packet_views(ps), s0.version, self.unparsed()),
                forall|qs: Seq<PacketV>, other: Seq<u8>| #[trigger] stream_accepts(buf0, qs, s0.version, other)
                    && !starts_frame(other, s0.version) ==> ps.len() <= qs.len() && qs.take(ps.len() as int)
                    == packet_views(ps) && stream_accepts(self.unparsed(), qs.skip(ps.len() as int), s0.version, other),
                !failed,
            ensures
                self.wf(),
                self.spec_options() == old(self).spec_options(),
                self.last_received() == now,
                stream_accepts(buf0, packet_views(ps), s0.version, self.unparsed()),
                !starts_frame(self.unparsed(), s0.version),
                forall|qs: Seq<PacketV>, other: Seq<u8>| #[trigger] stream_accepts(buf0, qs, s0.version, other)
                    && !starts_frame(other, s0.version) ==> qs == packet_views(ps) && other == self.unparsed(),
                failed ==> malformed_front(self.unparsed(), s0.version),
                !failed ==> self@ == apply_all(s0, ps) && (self.unparsed().len() == 0 || header_cut(self.unparsed())
                    || frame_cut(self.unparsed())),
                failed ==> self@ == (EngineV { events: apply_all(s0, ps).events.push(MqttEvent::Error(MqttClientError::MalformedPacket)), ..apply_all(s0, ps) }),
            decreases self.unparsed().len(),
        {
            let ghost before = self.unparsed();
            match self.parser.next_packet() {
                Ok(Some(packet)) => {
                    let ghost pk = packet;
                    let ghost n = choose|n: int| 0 < n <= before.len() && #[trigger] frame_accepts(pk@, before.take(n), s0.version)
                        && self.unparsed() == before.skip(n);
                    let ghost after = self.unparsed();
                    assert(forall|q: PacketV, m: int| 0 < m <= before.len() && #[trigger] frame_accepts(q, before.take(m), s0.version)
                        ==> pk@ == q && after == before.skip(m));
                    self.handle_packet(packet);
                    proof {
                        let ps1 = ps.push(pk);
                        let k = ps.len() as int;
                        assert forall|qs: Seq<PacketV>, other: Seq<u8>| #[trigger] stream_accepts(buf0, qs, s0.version, other)
                            && !starts_frame(other, s0.version) implies ps1.len() <= qs.len() && qs.take(ps1.len() as int)
                            == packet_views(ps1) && stream_accepts(after, qs.skip(ps1.len() as int), s0.version, other) by {
                            let suffix = qs.skip(k);
                            assert(stream_accepts(before, suffix, s0.version, other));
                            if suffix.len() == 0 {
                                assert(before == other);
                                assert(frame_accepts(pk@, before.take(n), s0.version));
                            }
                            lemma_stream_front(before, suffix, s0.version, other);
                            let m = choose|m: int| 0 < m <= before.len() && #[trigger] frame_accepts(suffix[0], before.take(m),
                                s0.version) && stream_accepts(before.skip(m), suffix.drop_first(), s0.version, other);
                            assert(pk@ == suffix[0] && after == before.skip(m));
                            assert(qs.take(k + 1) == qs.take(k).push(suffix[0]));
                            assert(packet_views(ps1) == packet_views(ps).push(pk@));
                            assert(qs.skip(k + 1) == suffix.drop_first());
                        }
                        assert(ps1.drop_last() == ps);
                        assert(packet_views(ps1).drop_last() == packet_views(ps));
                        assert(packet_views(ps1).last() == pk@);
                        assert(frame_accepts(packet_views(ps1).last(), before.take(n), s0.version));
                        assert(stream_accepts(buf0, packet_views(ps1), s0.version, self.unparsed()));
                        ps = ps1;
                    }
                },
                Ok(None) => {
                    proof {
                        lemma_read_to_end(buf0, ps, s0.version, before);
                    }
                    break;
                },
                Err(_e) => {
                    self.events.push(MqttEvent::Error(MqttClientError::MalformedPacket));
                    proof {
                        lemma_read_to_end(buf0, ps, s0.version, before);
                        failed = true;
                    }
                    break;
                },
            }
        }
        let r = self.take_events();
        proof {
            assert(buf0 == old(self).unparsed() + data@);
            assert(stream_accepts(old(self).unparsed() + data@, packet_views(ps), old(self)@.version, self.unparsed()));
            assert(self@ == (EngineV { events: seq![], ..apply_all(old(self)@, ps) }));
            assert(!starts_frame(self.unparsed(), old(self)@.version));
            assert(forall|qs: Seq<PacketV>, other: Seq<u8>| #[trigger] stream_accepts(old(self).unparsed() + data@, qs,
                old(self)@.version, other) && !starts_frame(other, old(self)@.version) ==> qs == packet_views(ps) && other
                == self.unparsed());
            assert(reads_incoming(old(self)@, old(self).unparsed() + data@, ps, self@, self.unparsed(), r@));
        }
        r
    }

    /// Marks each pending publication due for retransmission as sent again
    /// at `now`.
    fn handle_retransmissions(&mut self, now: u64)
        ensures
            final(self)@ == (EngineV { pending_publishes: refreshed(old(self)@.pending_publishes, now), ..old(self)@ }),
            final(self).wf() == old(self).wf(),
            final(self).spec_options() == old(self).spec_options(),
            final(self).last_sent() == old(self).last_sent(),
            final(self).last_received() == old(self).last_received(),
            final(self).unparsed() == old(self).unparsed(),
    {
        let mut updated: Vec<(u16, u64)> = Vec::new();
        let mut i: usize = 0;
        while i < self.pending_publishes.len()
            invariant
                self == old(self),
                i <= self.pending_publishes@.len(),
                updated@ == refreshed(self.pending_publishes@.take(i as int), now),
            decreases self.pending_publishes@.len() - i,
        {
            let (pid, sent_at) = self.pending_publishes[i];
            let elapsed = if now >= sent_at { now - sent_at } else { 0 };
            if elapsed >= RETRANSMIT_AFTER_MS {
                updated.push((pid, now));
            } else {
                updated.push((pid, sent_at));
            }
            assert(refreshed(self.pending_publishes@.take(i + 1), now) == refreshed(self.pending_publishes@.take(i as int), now).push(
                refreshed(self.pending_publishes@, now)[i as int]));
            i += 1;
        }
        assert(self.pending_publishes@.take(i as int) == self.pending_publishes@);
        self.pending_publishes = updated;
    }

    /// Acts on the passage of time: sends PINGREQ when nothing was sent for
    /// a keep-alive interval, asks for a reconnection when nothing was
    /// received for two, and counts due publications as sent again. Returns
    /// the events so far. `now` is read on the engine's clock
    /// (`elapsed_millis`).
    pub fn handle_tick(&mut self, now: u64) -> (r: Vec<MqttEvent>)
        requires
            old(self).wf(),
        ensures
            call_step(old(self)@, final(self)@),
            final(self).wf(),
            final(self).spec_options() == old(self).spec_options(),
            final(self).last_received() == old(self).last_received(),
            final(self).unparsed() == old(self).unparsed(),
            !old(self)@.connected ==> r@ == old(self)@.events && final(self)@ == (EngineV { events: seq![], ..old(self)@ })
                && final(self).last_sent() == old(self).last_sent(),
            old(self)@.connected ==> {
                let ka = old(self).spec_options().keep_alive * 1000;
                let ping = ka > 0 && since(now, old(self).last_sent()) >= ka;
                let dead = ka > 0 && since(now, old(self).last_received()) >= 2 * ka;
                let out = if ping {
                    old(self)@.outgoing.push(packet_bytes(PacketV::PingReq, old(self)@.version))
                } else {
                    old(self)@.outgoing
                };
                &&& final(self).last_sent() == if ping { now } else { old(self).last_sent() }
                &&& dead ==> r@ == old(self)@.events.push(MqttEvent::ReconnectNeeded)
                    && final(self)@ == (EngineV { connected: false, outgoing: out, events: seq![], ..old(self)@ })
                &&& !dead ==> r@ == old(self)@.events && final(self)@ == (EngineV {
                    outgoing: out,
                    pending_publishes: refreshed(old(self)@.pending_publishes, now),
                    events: seq![],
                    ..old(self)@
                })
            },
    {
        if !self.is_connected {
            return self.take_events();
        }
        let keep_alive: u64 = self.options.keep_alive as u64 * 1000;
        if keep_alive > 0 {
            let since_sent = if now >= self.last_packet_sent { now - self.last_packet_sent } else { 0 };
            if since_sent >= keep_alive {
                self.send_ping();
                self.last_packet_sent = now;
            }
            let since_received = if now >= self.last_packet_received { now - self.last_packet_received } else { 0 };
            if since_received >= keep_alive * 2 {
                self.events.push(MqttEvent::ReconnectNeeded);
                self.is_connected = false;
                return self.take_events();
            }
        }
        self.handle_retransmissions(now);
        self.take_events()
    }

    /// When `handle_tick` next has work: the keep-alive deadline or the
    /// earliest retransmission, whichever comes first; `None` when
    /// disconnected or when there is neither.
    pub fn next_tick_at(&self) -> (r: Option<u64>)
        ensures
            !self@.connected ==> r is None,
            self@.connected ==> r == earliest(
                if self.spec_options().keep_alive > 0 {
                    Some(later(self.last_sent(), (self.spec_options().keep_alive * 1000) as u64))
                } else {
                    None
                },
                self@.pending_publishes,
            ),
    {
        if !self.is_connected {
            return None;
        }
        let keep_alive: u64 = self.options.keep_alive as u64 * 1000;
        let mut next: Option<u64> = if keep_alive > 0 {
            Some(self.last_packet_sent.saturating_add(keep_alive))
        } else {
            None
        };
        let ghost start = next;
        let mut i: usize = 0;
        while i < self.pending_publishes.len()
            invariant
                i <= self.pending_publishes@.len(),
                next == earliest(start, self.pending_publishes@.take(i as int)),
            decreases self.pending_publishes@.len() - i,
        {
            let sent_at = self.pending_publishes[i].1;
            let resend_at = sent_at.saturating_add(RETRANSMIT_AFTER_MS);
            next = match next {
                None => Some(resend_at),
                Some(x) => if resend_at < x { Some(resend_at) } else { Some(x) },
            };
            assert(self.pending_publishes@.take(i + 1).drop_last() == self.pending_publishes@.take(i as int));
            i += 1;
        }
        assert(self.pending_publishes@.take(i as int) == self.pending_publishes@);
        next
    }
}

/// Received packets never change the protocol version, and the engine
/// becomes connected from received packets only through a CONNACK with
/// reason code 0: if it was not connected before a run of packets and is
/// connected after it, one of them is such a CONNACK (the last CONNACK of
/// the run, and nothing after it disconnected the engine).
pub proof fn law_only_accepted_connack_connects(s: EngineV, ps: Seq<MqttPacket>)
    ensures
        apply_all(s, ps).version == s.version,
        !s.connected && apply_all(s, ps).connected ==> exists|i: int|
            0 <= i < ps.len() && (#[trigger] ps[i] matches MqttPacket::ConnAck(a) && a.reason_code == 0),
    decreases ps.len(),
{
    if ps.len() > 0 {
        let init = ps.drop_last();
        law_only_accepted_connack_connects(s, init);
        let mid = apply_all(s, init);
        let last = ps.last();
        if !s.connected && apply_all(s, ps).connected {
            if mid.connected {
                let i = choose|i: int| 0 <= i < init.len()
                    && (#[trigger] init[i] matches MqttPacket::ConnAck(a) && a.reason_code == 0);
                assert(ps[i] == init[i]);
            } else {
                assert(ps[ps.len() - 1] == last);
            }
        }
    }
}

/// One public call keeps the protocol version, and connects the engine
/// only through an accepted CONNACK among the packets it acts on.
pub proof fn lemma_call_step(s: EngineV, t: EngineV)
    requires
        call_step(s, t),
    ensures
        t.version == s.version,
        connects_by_connack(s, t),
{
    if !(t.version == s.version && (t.connected ==> s.connected)) {
        let ps = choose|ps: Seq<MqttPacket>| t == (EngineV { events: seq![], ..#[trigger] apply_all(s, ps) });
        law_only_accepted_connack_connects(s, ps);
        if !s.connected && t.connected {
            let k = choose|k: int| 0 <= k < ps.len() && (#[trigger] ps[k] matches MqttPacket::ConnAck(a) && a.reason_code == 0);
            assert(t == (EngineV { events: seq![], ..apply_all(s, ps) }) && 0 <= k < ps.len());
        }
    } else {
        law_only_accepted_connack_connects(s, seq![]);
    }
}

proof fn lemma_trace_version(trace: Seq<EngineV>, i: int)
    requires
        forall|a: int, b: int| 0 <= a && b == a + 1 && b < trace.len() ==> #[trigger] call_step(trace[a], trace[b]),
        0 <= i < trace.len(),
    ensures
        trace[i].version == trace[0].version,
    decreases i,
{
    if i > 0 {
        lemma_trace_version(trace, i - 1);
        assert(call_step(trace[i - 1], trace[i]));
        lemma_call_step(trace[i - 1], trace[i]);
    }
}

/// Over any run of public calls (each consecutive pair of engine states is
/// one call), the protocol version never changes, so it stays the one the
/// options gave to `new`; and each time the engine goes from disconnected
/// to connected, the call acted on received packets among which is a
/// CONNACK with reason code 0. Every other call (`disconnect`,
/// `handle_connection_lost`, a keep-alive timeout in `handle_tick`, a
/// refused CONNACK or a DISCONNECT from the server) at most disconnects it.
pub proof fn law_connection_and_version_over_calls(trace: Seq<EngineV>)
    requires
        forall|a: int, b: int| 0 <= a && b == a + 1 && b < trace.len() ==> #[trigger] call_step(trace[a], trace[b]),
    ensures
        forall|i: int| 0 <= i < trace.len() ==> #[trigger] trace[i].version == trace[0].version,
        forall|a: int, b: int| 0 <= a && b == a + 1 && b < trace.len() ==> #[trigger] connects_by_connack(trace[a], trace[b]),
{
    assert forall|i: int| 0 <= i < trace.len() implies #[trigger] trace[i].version == trace[0].version by {
        lemma_trace_version(trace, i);
    }
    assert forall|a: int, b: int| 0 <= a && b == a + 1 && b < trace.len() implies #[trigger] connects_by_connack(
        trace[a],
        trace[b],
    ) by {
        lemma_call_step(trace[a], trace[b]);
    }
}

/// What a packet adds to the events does not depend on the events already
/// there, and the rest of the state does not depend on them at all.
proof fn lemma_packet_events(a: EngineV, e: Seq<MqttEvent>, p: MqttPacket)
    ensures
        apply_packet(EngineV { events: e + a.events, ..a }, p) == (EngineV {
            events: e + apply_packet(a, p).events,
            ..apply_packet(a, p)
        }),
{
    assert forall|x: MqttEvent| (e + a.events).push(x) == e + a.events.push(x) by {
        assert((e + a.events).push(x) =~= e + a.events.push(x));
    }
}

/// The events already there stay first, and the packets add the same
/// events after them as they would add to none.
proof fn lemma_apply_events(s: EngineV, ps: Seq<MqttPacket>)
    ensures
        apply_all(s, ps) == (EngineV {
            events: s.events + apply_all(EngineV { events: seq![], ..s }, ps).events,
            ..apply_all(EngineV { events: seq![], ..s }, ps)
        }),
    decreases ps.len(),
{
    let z = EngineV { events: seq![], ..s };
    if ps.len() == 0 {
        assert(s.events + z.events =~= s.events);
    } else {
        lemma_apply_events(s, ps.drop_last());
        lemma_packet_events(apply_all(z, ps.drop_last()), s.events, ps.last());
    }
}

/// Acting on two runs of packets is acting on the one run of all of them.
proof fn lemma_apply_concat(s: EngineV, first: Seq<MqttPacket>, second: Seq<MqttPacket>)
    ensures
        apply_all(s, first + second) == apply_all(apply_all(s, first), second),
    decreases second.len(),
{
    if second.len() == 0 {
        assert(first + second == first);
    } else {
        lemma_apply_concat(s, first, second.drop_last());
        assert((first + second).drop_last() == first + second.drop_last());
        assert((first + second).last() == second.last());
    }
}

/// Packets with the same views change the engine alike: the same state but
/// for the events, and as many events.
proof fn lemma_packet_views(a: EngineV, b: EngineV, p: MqttPacket, q: MqttPacket)
    requires
        (EngineV { events: seq![], ..a }) == (EngineV { events: seq![], ..b }),
        event_views(a.events) == event_views(b.events),
        p@ == q@,
    ensures
        (EngineV { events: seq![], ..apply_packet(a, p) }) == (EngineV { events: seq![], ..apply_packet(b, q) }),
        event_views(apply_packet(a, p).events) == event_views(apply_packet(b, q).events),
{
    assert forall|u: Seq<MqttEvent>, e: MqttEvent| #[trigger] event_views(u.push(e)) == event_views(u).push(e@) by {
        assert(event_views(u.push(e)) =~= event_views(u).push(e@));
    }
}

/// Runs of packets with the same views change the engine alike.
proof fn lemma_apply_views(s: EngineV, ps: Seq<MqttPacket>, qs: Seq<MqttPacket>)
    requires
        packet_views(ps) == packet_views(qs),
    ensures
        (EngineV { events: seq![], ..apply_all(s, ps) }) == (EngineV { events: seq![], ..apply_all(s, qs) }),
        event_views(apply_all(s, ps).events) == event_views(apply_all(s, qs).events),
    decreases ps.len(),
{
    assert(ps.len() == packet_views(ps).len() && qs.len() == packet_views(qs).len());
    if ps.len() > 0 {
        assert(packet_views(ps.drop_last()) =~= packet_views(ps).drop_last());
        assert(packet_views(qs.drop_last()) =~= packet_views(qs).drop_last());
        lemma_apply_views(s, ps.drop_last(), qs.drop_last());
        assert(ps.last()@ == packet_views(ps)[ps.len() - 1]);
        assert(qs.last()@ == packet_views(qs)[qs.len() - 1]);
        lemma_packet_views(apply_all(s, ps.drop_last()), apply_all(s, qs.drop_last()), ps.last(), qs.last());
    }
}

/// Bytes that start no frame at all still start none with more bytes
/// after them.
proof fn lemma_malformed_stays(rest: Seq<u8>, more: Seq<u8>, version: u8)
    requires
        malformed_front(rest, version),
    ensures
        !starts_frame(rest + more, version),
        malformed_front(rest + more, version),
{
    let joined = rest + more;
    if joined.len() == 0 || header_cut(joined) || frame_cut(joined) {
        assert(joined.len() > 0);
        lemma_cut_prefix(rest, more);
    }
    if starts_frame(joined, version) {
        let (q, n) = choose|q: PacketV, n: int| 0 < n <= joined.len() && #[trigger] frame_accepts(q, joined.take(n), version);
        if rest.len() >= n {
            assert(joined.take(n) == rest.take(n));
            assert(frame_accepts(q, rest.take(n), version));
        } else {
            lemma_accepted_prefix_cut(joined, q, n, rest.len() as int, version);
            assert(joined.take(rest.len() as int) == rest);
        }
    }
}

/// Input may arrive in any two pieces, whatever it holds. Two engines in
/// the same state `s` hold the same unread bytes `u`; one reads `a` and
/// then `b` (two calls of `handle_incoming`), the other reads `a + b` in
/// one call. Both act on the same packets in the same order, leave the
/// same bytes unread (a frame cut short waits in both), and end in the
/// same state (connection flag, frames to send, pending requests). The
/// single call's events say what the first call's packet events followed
/// by the second call's events say; so when the first call reports no
/// error, they say what the two calls' events say one after the other.
/// When the first piece already ends at bytes that start no frame, those
/// bytes stay unread, the second call acts on no packet, and it reports
/// the error again.
pub proof fn law_split_input_any_bytes(
    s: EngineV,
    u: Seq<u8>,
    a: Seq<u8>,
    b: Seq<u8>,
    ps1: Seq<MqttPacket>,
    s1: EngineV,
    rest1: Seq<u8>,
    r1: Seq<MqttEvent>,
    ps2: Seq<MqttPacket>,
    s2: EngineV,
    rest2: Seq<u8>,
    r2: Seq<MqttEvent>,
    ps: Seq<MqttPacket>,
    t: EngineV,
    rest: Seq<u8>,
    r: Seq<MqttEvent>,
)
    requires
        reads_incoming(s, u + a, ps1, s1, rest1, r1),
        reads_incoming(s1, rest1 + b, ps2, s2, rest2, r2),
        reads_incoming(s, u + a + b, ps, t, rest, r),
    ensures
        packet_views(ps1 + ps2) == packet_views(ps),
        rest2 == rest,
        t == s2,
        event_views(r) == event_views(apply_all(s, ps1).events + r2),
        !malformed_front(rest1, s.version) ==> event_views(r) == event_views(r1 + r2),
        malformed_front(rest1, s.version) ==> ps2.len() == 0 && rest == rest1 + b && r2 == seq![
            MqttEvent::Error(MqttClientError::MalformedPacket),
        ],
{
    let v = s.version;
    law_only_accepted_connack_connects(s, ps1);
    assert(s1.version == v);
    assert(u + a + b == (u + a) + b);
    if malformed_front(rest1, v) {
        lemma_malformed_stays(rest1, b, v);
        lemma_stream_extend(u + a, packet_views(ps1), v, rest1, b);
        assert(packet_views(ps1) == packet_views(ps) && rest1 + b == rest);
        assert(stream_accepts(rest1 + b, Seq::<PacketV>::empty(), v, rest1 + b));
        assert(packet_views(ps2) == Seq::<PacketV>::empty() && rest1 + b == rest2);
        assert(ps2.len() == packet_views(ps2).len());
        assert(ps2 =~= Seq::<MqttPacket>::empty());
        assert(apply_all(s1, ps2) == s1);
        assert(r2 =~= seq![MqttEvent::Error(MqttClientError::MalformedPacket)]);
    } else {
        lemma_stream_extend(u + a, packet_views(ps1), v, rest1, b);
        lemma_stream_join(u + a + b, packet_views(ps1), v, rest1 + b, packet_views(ps2), rest2);
    }
    assert(packet_views(ps1 + ps2) =~= packet_views(ps1) + packet_views(ps2));
    lemma_apply_concat(s, ps1, ps2);
    lemma_apply_events(apply_all(s, ps1), ps2);
    lemma_apply_views(s, ps1 + ps2, ps);
    let e1 = apply_all(s, ps1).events;
    let e2 = apply_all(s1, ps2).events;
    let err = MqttEvent::Error(MqttClientError::MalformedPacket);
    assert(event_views(apply_all(s, ps).events) == event_views(e1 + e2));
    if malformed_front(rest, v) {
        assert(event_views(r) =~= event_views(apply_all(s, ps).events).push(err@));
        assert(e1 + r2 =~= (e1 + e2).push(err));
        assert(event_views(e1 + r2) =~= event_views(e1 + e2).push(err@));
    }
}

/// Input may arrive in any two pieces. Take bytes that are whole frames of
/// the packets `frames`, cut anywhere into `a` and `b`. One engine in state
/// `s`, holding no unread bytes, reads `a` and then `b` (two calls of
/// `handle_incoming`); another, in the same state, reads `a + b` in one
/// call. Both act on the same packets in the same order and leave nothing
/// unread; neither reports an error; the engines end in the same state
/// (connection flag, frames to send, pending requests); and the events of
/// the two calls, one after the other, are those of acting on the packets
/// in one run, and say what the single call's events say.
pub proof fn law_split_input(
    s: EngineV,
    a: Seq<u8>,
    b: Seq<u8>,
    frames: Seq<PacketV>,
    ps1: Seq<MqttPacket>,
    s1: EngineV,
    rest1: Seq<u8>,
    r1: Seq<MqttEvent>,
    ps2: Seq<MqttPacket>,
    s2: EngineV,
    rest2: Seq<u8>,
    r2: Seq<MqttEvent>,
    ps: Seq<MqttPacket>,
    t: EngineV,
    rest: Seq<u8>,
    r: Seq<MqttEvent>,
)
    requires
        stream_accepts(a + b, frames, s.version, seq![]),
        reads_incoming(s, a, ps1, s1, rest1, r1),
        reads_incoming(s1, rest1 + b, ps2, s2, rest2, r2),
        reads_incoming(s, a + b, ps, t, rest, r),
    ensures
        packet_views(ps) == frames,
        packet_views(ps1 + ps2) == frames,
        rest2.len() == 0,
        rest.len() == 0,
        t == s2,
        r1 == apply_all(s, ps1).events,
        r2 == apply_all(s1, ps2).events,
        r1 + r2 == apply_all(s, ps1 + ps2).events,
        r == apply_all(s, ps).events,
        event_views(r) == event_views(r1 + r2),
{
    let v = s.version;
    law_only_accepted_connack_connects(s, ps1);
    assert(s1.version == v);
    assert(!starts_frame(seq![], v));
    assert(frames == packet_views(ps) && Seq::<u8>::empty() == rest);
    lemma_stream_extend(a, packet_views(ps1), v, rest1, b);
    lemma_stream_join(a + b, packet_views(ps1), v, rest1 + b, packet_views(ps2), rest2);
    assert(packet_views(ps1 + ps2) =~= packet_views(ps1) + packet_views(ps2));
    assert(packet_views(ps1) + packet_views(ps2) == packet_views(ps) && rest2 == rest);
    if malformed_front(rest1, v) {
        let joined = rest1 + b;
        assert(stream_accepts(joined, packet_views(ps2), v, seq![]));
        if packet_views(ps2).len() == 0 {
            assert(joined == Seq::<u8>::empty());
            assert(rest1.len() == 0);
        } else {
            lemma_stream_front(joined, packet_views(ps2), v, seq![]);
            let n = choose|n: int| 0 < n <= joined.len() && #[trigger] frame_accepts(packet_views(ps2)[0], joined.take(n), v)
                && stream_accepts(joined.skip(n), packet_views(ps2).drop_first(), v, seq![]);
            if rest1.len() >= n {
                assert(joined.take(n) == rest1.take(n));
                assert(frame_accepts(packet_views(ps2)[0], rest1.take(n), v));
            } else {
                lemma_accepted_prefix_cut(joined, packet_views(ps2)[0], n, rest1.len() as int, v);
                assert(joined.take(rest1.len() as int) == rest1);
            }
        }
    }
    lemma_apply_concat(s, ps1, ps2);
    lemma_apply_events(apply_all(s, ps1), ps2);
    lemma_apply_views(s, ps1 + ps2, ps);
}

/// Two tables of requests name the same identifiers, each with the same
/// topics.
pub open spec fn same_requests(m: Map<u16, Vec<String>>, n: Map<u16, Vec<String>>) -> bool {
    &&& m.dom() == n.dom()
    &&& forall|k: u16| #[trigger] m.contains_key(k) ==> m[k]@ == n[k]@
}

/// The requests of a table, each with a copy of its topics, in an order
/// left open.
fn list_requests(m: &HashMap<u16, Vec<String>>) -> (r: Vec<(u16, Vec<String>)>)
    ensures
        distinct_keys(r@),
        same_requests(pairs_map(r@), m@),
{
    let mut r: Vec<(u16, Vec<String>)> = Vec::new();
    let ghost ks = spec_keys_iter(m).remaining().unref();
    for k in it: m.keys()
        invariant
            r@.len() == it.index(),
            it.seq().unref() == ks,
            it.seq().unref().to_set() == m@.dom(),
            it.seq().no_duplicates(),
            forall|i: int| 0 <= i < r@.len() ==> (#[trigger] r@[i]).0 == *it.seq()[i] && m@.contains_key(r@[i].0)
                && r@[i].1@ == m@[r@[i].0]@,
    {
        assert(*k == *it.seq()[it.index() as int]);
        assert(it.seq().unref().to_set().contains(*k)) by {
            assert(it.seq().unref()[it.index() as int] == *k);
        }
        match m.get(k) {
            Some(v) => {
                r.push((*k, copy_strings(v)));
            },
            None => {},
        }
    }
    proof {
        assert(ks.to_set() == m@.dom() && ks.no_duplicates());
        assert(r@.len() == ks.len());
        assert forall|i: int, j: int| 0 <= i < j < r@.len() implies (#[trigger] r@[i]).0 != (#[trigger] r@[j]).0 by {
            assert(r@[i].0 == ks[i] && r@[j].0 == ks[j]);
        }
        assert forall|key: u16| #[trigger] pairs_map(r@).contains_key(key) <==> m@.contains_key(key) by {
            if m@.contains_key(key) {
                assert(ks.to_set().contains(key));
                let i = choose|i: int| 0 <= i < ks.len() && ks[i] == key;
                assert(r@[i].0 == key);
            }
            if pairs_map(r@).contains_key(key) {
                let i = choose|i: int| 0 <= i < r@.len() && (#[trigger] r@[i]).0 == key;
            }
        }
        assert(pairs_map(r@).dom() =~= m@.dom());
        assert forall|key: u16| #[trigger] pairs_map(r@).contains_key(key) implies pairs_map(r@)[key]@ == m@[key]@ by {
            let i = choose|i: int| 0 <= i < r@.len() && (#[trigger] r@[i]).0 == key;
            lemma_map_at(r@, i);
        }
    }
    r
}

/// The format of saved sessions that this engine writes and reads.
pub const SESSION_STATE_VERSION: u32 = 1;

/// What a session carries across a restart of the client: the broker and
/// client it belongs to, the next packet identifier, the publications
/// waiting for a connection (in the order they will leave), and the
/// requests awaiting acknowledgement (publications by identifier,
/// subscriptions and unsubscriptions with their topics).
#[derive(Debug, Clone, PartialEq)]
pub struct SessionSnapshot {
    pub version: u32,
    pub peer: String,
    pub client_id: String,
    pub mqtt_version: u8,
    /// The identifier the session hands out next, or 0 when no session has
    /// begun.
    pub packet_id_counter: u16,
    pub queued: Vec<(u8, PublishCommand)>,
    pub outstanding_publishes: Vec<u16>,
    pub outstanding_subscribes: Vec<(u16, Vec<String>)>,
    pub outstanding_unsubscribes: Vec<(u16, Vec<String>)>,
}

/// A saved session, its names read as characters.
pub struct SnapshotV {
    pub version: u32,
    pub peer: Seq<char>,
    pub client_id: Seq<char>,
    pub mqtt_version: u8,
    pub packet_id_counter: u16,
    pub queued: Seq<(u8, PublishCommand)>,
    pub outstanding_publishes: Seq<u16>,
    pub outstanding_subscribes: Seq<(u16, Vec<String>)>,
    pub outstanding_unsubscribes: Seq<(u16, Vec<String>)>,
}

impl View for SessionSnapshot {
    type V = SnapshotV;

    open spec fn view(&self) -> SnapshotV {
        SnapshotV {
            version: self.version,
            peer: self.peer@,
            client_id: self.client_id@,
            mqtt_version: self.mqtt_version,
            packet_id_counter: self.packet_id_counter,
            queued: self.queued@,
            outstanding_publishes: self.outstanding_publishes@,
            outstanding_subscribes: self.outstanding_subscribes@,
            outstanding_unsubscribes: self.outstanding_unsubscribes@,
        }
    }
}

/// Whether a property is a topic alias, which holds for one connection only.
pub open spec fn is_topic_alias(p: PropertyV) -> bool {
    p.id == 0x23
}

/// The properties without their topic aliases, in order.
pub open spec fn without_aliases(ps: Seq<PropertyV>) -> Seq<PropertyV>
    decreases ps.len(),
{
    if ps.len() == 0 {
        ps
    } else if is_topic_alias(ps.last()) {
        without_aliases(ps.drop_last())
    } else {
        without_aliases(ps.drop_last()).push(ps.last())
    }
}

/// `d` is the publication `c` as saved: the same message, and in MQTT 5
/// without its topic aliases.
pub open spec fn saved_command(c: PublishCommand, d: PublishCommand, version: u8) -> bool {
    &&& d.topic_name@ == c.topic_name@ && d.payload@ == c.payload@ && d.qos == c.qos && d.retain == c.retain
    &&& d.dup == c.dup && d.packet_id == c.packet_id && d.priority == c.priority
    &&& views(d.properties@) == (if version == 5 { without_aliases(views(c.properties@)) } else { views(c.properties@) })
}

/// The identifiers of a list of requests.
pub open spec fn request_ids(v: Seq<(u16, Vec<String>)>) -> Seq<u16> {
    v.map_values(|p: (u16, Vec<String>)| p.0)
}

/// The identifiers of the publications awaiting acknowledgement.
pub open spec fn publish_ids(v: Seq<(u16, u64)>) -> Seq<u16> {
    v.map_values(|p: (u16, u64)| p.0)
}

/// Whether the options leave nothing to save: no session is tracked, or
/// there is no client id to resume it under.
pub open spec fn snapshot_refused(o: MqttClientOptions) -> bool {
    o.sessionless || o.client_id@.len() == 0
}

/// `s` saves the session of an engine in state `e` made with options `o`:
/// the broker, client and version; the next identifier; the queued
/// publications in the order they leave; the identifiers of the
/// publications awaiting acknowledgement, in order; and the subscriptions
/// and unsubscriptions awaiting acknowledgement, each once, with their
/// topics.
pub open spec fn snapshot_of(e: EngineV, o: MqttClientOptions, s: SnapshotV) -> bool {
    &&& s.version == SESSION_STATE_VERSION
    &&& s.peer == o.peer@ && s.client_id == o.client_id@ && s.mqtt_version == e.version
    &&& s.packet_id_counter == (match e.session {
        Some(id) => id,
        None => 0u16,
    })
    &&& s.queued.len() == e.queue.len()
    &&& forall|i: int| 0 <= i < s.queued.len() ==> (#[trigger] s.queued[i]).0 == e.queue[i].0 && saved_command(
        e.queue[i].1,
        s.queued[i].1,
        e.version,
    )
    &&& s.outstanding_publishes == publish_ids(e.pending_publishes)
    &&& distinct_keys(s.outstanding_subscribes) && same_requests(pairs_map(s.outstanding_subscribes), e.pending_subscribes)
    &&& distinct_keys(s.outstanding_unsubscribes) && same_requests(
        pairs_map(s.outstanding_unsubscribes),
        e.pending_unsubscribes,
    )
}

/// No identifier is 0.
pub open spec fn nonzero(ids: Seq<u16>) -> bool {
    forall|i: int| 0 <= i < ids.len() ==> #[trigger] ids[i] != 0
}

/// No identifier appears twice.
pub open spec fn no_repeats(ids: Seq<u16>) -> bool {
    forall|i: int, j: int| 0 <= i < j < ids.len() ==> #[trigger] ids[i] != #[trigger] ids[j]
}

/// A topic a saved publication may name: not empty, with no wildcard and no
/// NUL character.
pub open spec fn topic_ok(t: Seq<char>) -> bool {
    t.len() > 0 && !t.contains('#') && !t.contains('+') && !t.contains('\0')
}

/// A publication a saved session may hold in its queue: QoS 0 to 2, a topic
/// it may publish to, no identifier and no DUP flag at QoS 0, a nonzero
/// identifier above it, and in MQTT 5 no topic alias.
pub open spec fn saved_publication_ok(c: PublishCommand, version: u8) -> bool {
    &&& c.qos <= 2
    &&& topic_ok(c.topic_name@)
    &&& c.qos == 0 ==> c.packet_id is None && !c.dup
    &&& c.qos > 0 ==> (c.packet_id matches Some(id) && id != 0)
    &&& version == 5 ==> forall|i: int| 0 <= i < c.properties@.len() ==> !is_topic_alias(#[trigger] c.properties@[i]@)
}

/// The identifier a queued publication holds for itself: its own above QoS 0.
pub open spec fn queued_id(c: PublishCommand) -> Option<u16> {
    if c.qos > 0 { c.packet_id } else { None }
}

/// The identifiers of the subscriptions and unsubscriptions of a saved
/// session.
pub open spec fn saved_request_ids(s: SnapshotV) -> Seq<u16> {
    request_ids(s.outstanding_subscribes) + request_ids(s.outstanding_unsubscribes)
}

/// The identifiers and queued publications of a saved session can be taken
/// up: every identifier nonzero; the subscriptions and unsubscriptions, the
/// awaited publications, and the queued publications each without repeats;
/// no publication under the identifier of a subscription or
/// unsubscription; and every queued publication one a session may hold.
/// (A queued publication keeps the identifier it was recorded under among
/// the awaited publications.)
pub open spec fn ids_acceptable(s: SnapshotV) -> bool {
    &&& nonzero(saved_request_ids(s)) && no_repeats(saved_request_ids(s))
    &&& nonzero(s.outstanding_publishes) && no_repeats(s.outstanding_publishes)
    &&& forall|i: int| 0 <= i < s.outstanding_publishes.len() ==> !saved_request_ids(s).contains(
        #[trigger] s.outstanding_publishes[i],
    )
    &&& forall|i: int| 0 <= i < s.queued.len() ==> saved_publication_ok(#[trigger] s.queued[i].1, s.mqtt_version)
    &&& forall|i: int| 0 <= i < s.queued.len() && (#[trigger] queued_id(s.queued[i].1)) is Some ==> !saved_request_ids(
        s,
    ).contains(queued_id(s.queued[i].1)->0)
    &&& forall|i: int, j: int| 0 <= i < j < s.queued.len() && (#[trigger] queued_id(s.queued[i].1)) is Some ==> queued_id(
        s.queued[i].1,
    ) != #[trigger] queued_id(s.queued[j].1)
}

/// An engine that has not connected, has no session and holds nothing.
pub open spec fn fresh_engine(e: EngineV) -> bool {
    &&& !e.connected && e.session is None && e.queue.len() == 0 && e.outgoing.len() == 0
    &&& e.pending_publishes.len() == 0 && e.pending_subscribes.len() == 0 && e.pending_unsubscribes.len() == 0
}

/// Whether an engine in state `e` made with options `o` takes up the saved
/// session `s`: the engine is fresh; the format is this one; the options
/// track sessions and do not start clean; the client id is not empty and
/// the broker, client and version are the engine's, a version from 3 to 5;
/// the queue fits; and the identifiers and publications can be taken up.
pub open spec fn restorable(e: EngineV, o: MqttClientOptions, s: SnapshotV) -> bool {
    &&& fresh_engine(e)
    &&& s.version == SESSION_STATE_VERSION
    &&& !o.sessionless && !o.clean_start
    &&& s.client_id.len() > 0 && s.client_id == o.client_id@ && s.peer == o.peer@
    &&& s.mqtt_version == e.version && 3 <= s.mqtt_version <= 5
    &&& s.queued.len() <= QUEUE_CAPACITY
    &&& ids_acceptable(s)
}

/// The queue after the items are added one after another, each after those
/// of its priority or higher.
pub open spec fn queue_of(items: Seq<(u8, PublishCommand)>) -> Seq<(u8, PublishCommand)>
    decreases items.len(),
{
    if items.len() == 0 {
        items
    } else {
        let q = queue_of(items.drop_last());
        q.insert(choose|k: int| slot_for(q, k, items.last().0), items.last())
    }
}

/// The engine after it takes up the saved session `s`: the session resumes
/// at the saved identifier (none when it is 0), the publications are queued
/// again, the awaited publications count as sent at time 0, and the
/// awaited subscriptions and unsubscriptions are as saved.
pub open spec fn restored(e: EngineV, s: SnapshotV) -> EngineV {
    EngineV {
        session: if s.packet_id_counter == 0 { None } else { Some(s.packet_id_counter) },
        queue: queue_of(s.queued),
        pending_publishes: s.outstanding_publishes.map_values(|id: u16| (id, 0u64)),
        pending_subscribes: pairs_map(s.outstanding_subscribes),
        pending_unsubscribes: pairs_map(s.outstanding_unsubscribes),
        ..e
    }
}

/// The error for saved state that cannot be written or taken up.
fn invalid_session(reason: &str) -> (r: MqttClientError)
    ensures
        r matches MqttClientError::InvalidConfiguration { field, reason: text } && text@ == reason@,
{
    MqttClientError::InvalidConfiguration { field: "session state".to_owned(), reason: reason.to_owned() }
}

/// A copy of the properties without their topic aliases.
fn strip_aliases(ps: &Vec<Property>) -> (r: Vec<Property>)
    ensures
        views(r@) == without_aliases(views(ps@)),
{
    let mut r: Vec<Property> = Vec::new();
    let mut i: usize = 0;
    while i < ps.len()
        invariant
            i <= ps@.len(),
            views(r@) == without_aliases(views(ps@.take(i as int))),
        decreases ps@.len() - i,
    {
        let ghost before = r@;
        let keep = match &ps[i] {
            Property::TopicAlias(_) => false,
            _ => true,
        };
        assert(keep == !is_topic_alias(ps@[i as int]@));
        if keep {
            r.push(copy_property(&ps[i]));
            assert(views(r@) =~= views(before).push(ps@[i as int]@));
        }
        assert(views(ps@.take(i + 1)).drop_last() =~= views(ps@.take(i as int)));
        assert(views(ps@.take(i + 1)).last() == ps@[i as int]@);
        i += 1;
    }
    assert(ps@.take(ps@.len() as int) =~= ps@);
    r
}

/// The publication as a saved session keeps it.
fn save_command(c: &PublishCommand, version: u8) -> (d: PublishCommand)
    ensures
        saved_command(*c, d, version),
{
    PublishCommand {
        topic_name: c.topic_name.clone(),
        payload: copy_bytes(&c.payload),
        qos: c.qos,
        retain: c.retain,
        dup: c.dup,
        packet_id: c.packet_id,
        properties: if version == 5 { strip_aliases(&c.properties) } else { copy_properties(&c.properties) },
        priority: c.priority,
    }
}

/// Whether a saved publication may name the topic.
fn topic_valid(t: &String) -> (r: bool)
    ensures
        r == topic_ok(t@),
{
    let s = t.as_str();
    let n = s.unicode_len();
    if n == 0 {
        return false;
    }
    let mut i: usize = 0;
    while i < n
        invariant
            n == t@.len(),
            s@ == t@,
            i <= n,
            forall|j: int| 0 <= j < i ==> t@[j] != '#' && t@[j] != '+' && t@[j] != '\0',
        decreases n - i,
    {
        let c = s.get_char(i);
        if c == '#' || c == '+' || c == '\0' {
            assert(t@[i as int] == c);
            return false;
        }
        i += 1;
    }
    true
}

/// Whether a saved session may hold the publication in its queue.
fn saved_publication_valid(c: &PublishCommand, version: u8) -> (r: bool)
    ensures
        r == saved_publication_ok(*c, version),
{
    if c.qos > 2 || !topic_valid(&c.topic_name) {
        return false;
    }
    if c.qos == 0 && (c.packet_id.is_some() || c.dup) {
        return false;
    }
    if c.qos > 0 {
        match c.packet_id {
            Some(id) => {
                if id == 0 {
                    return false;
                }
            },
            None => return false,
        }
    }
    if version == 5 {
        let mut i: usize = 0;
        while i < c.properties.len()
            invariant
                version == 5,
                i <= c.properties@.len(),
                forall|j: int| 0 <= j < i ==> !is_topic_alias(#[trigger] c.properties@[j]@),
            decreases c.properties@.len() - i,
        {
            match &c.properties[i] {
                Property::TopicAlias(_) => {
                    assert(is_topic_alias(c.properties@[i as int]@));
                    return false;
                },
                _ => {},
            }
            i += 1;
        }
    }
    true
}

/// The identifiers as a set, when none is 0 and none repeats.
fn distinct_nonzero(ids: &Vec<u16>) -> (r: Option<HashSet<u16>>)
    ensures
        (r is Some) <==> (nonzero(ids@) && no_repeats(ids@)),
        r matches Some(set) ==> forall|x: u16| #[trigger] set@.contains(x) <==> ids@.contains(x),
{
    let mut set: HashSet<u16> = HashSet::new();
    let mut i: usize = 0;
    while i < ids.len()
        invariant
            i <= ids@.len(),
            nonzero(ids@.take(i as int)),
            no_repeats(ids@.take(i as int)),
            forall|x: u16| #[trigger] set@.contains(x) <==> ids@.take(i as int).contains(x),
        decreases ids@.len() - i,
    {
        let id = ids[i];
        if id == 0 {
            assert(ids@[i as int] == 0);
            return None;
        }
        if !set.insert(id) {
            proof {
                let j = choose|j: int| 0 <= j < i && ids@.take(i as int)[j] == id;
                assert(ids@[j] == ids@[i as int]);
            }
            return None;
        }
        assert forall|x: u16| #[trigger] set@.contains(x) <==> ids@.take(i + 1).contains(x) by {
            if ids@.take(i as int).contains(x) {
                let j = choose|j: int| 0 <= j < i && ids@.take(i as int)[j] == x;
                assert(ids@.take(i + 1)[j] == x);
            }
            if ids@.take(i + 1).contains(x) && x != id {
                let j = choose|j: int| 0 <= j < i + 1 && #[trigger] ids@.take(i + 1)[j] == x;
                assert(ids@.take(i as int)[j] == x);
            }
            if x == id {
                assert(ids@.take(i + 1)[i as int] == x);
            }
        }
        assert forall|a: int, b: int| 0 <= a < b < i + 1 implies #[trigger] ids@.take(i + 1)[a] != #[trigger] ids@.take(
            i + 1,
        )[b] by {
            if b == i {
                assert(ids@.take(i as int)[a] == ids@[a]);
                assert(ids@.take(i as int).contains(ids@[a]));
            } else {
                assert(ids@.take(i as int)[a] != ids@.take(i as int)[b]);
            }
        }
        i += 1;
    }
    assert(ids@.take(ids@.len() as int) =~= ids@);
    Some(set)
}

/// The identifiers of the requests, in order.
fn ids_of_requests(v: &Vec<(u16, Vec<String>)>, out: &mut Vec<u16>)
    ensures
        final(out)@ == old(out)@ + request_ids(v@),
{
    let ghost start = out@;
    let mut i: usize = 0;
    while i < v.len()
        invariant
            i <= v@.len(),
            out@ == start + request_ids(v@.take(i as int)),
        decreases v@.len() - i,
    {
        out.push(v[i].0);
        assert(request_ids(v@.take(i + 1)) =~= request_ids(v@.take(i as int)).push(v@[i as int].0));
        assert(start + request_ids(v@.take(i + 1)) =~= (start + request_ids(v@.take(i as int))).push(v@[i as int].0));
        i += 1;
    }
    assert(v@.take(i as int) =~= v@);
}

/// Whether the identifiers and queued publications of a saved session can
/// be taken up.
fn check_saved_ids(s: &SessionSnapshot) -> (r: bool)
    ensures
        r == ids_acceptable(s@),
{
    let mut reqs: Vec<u16> = Vec::new();
    ids_of_requests(&s.outstanding_subscribes, &mut reqs);
    ids_of_requests(&s.outstanding_unsubscribes, &mut reqs);
    assert(reqs@ =~= saved_request_ids(s@));
    let requests = match distinct_nonzero(&reqs) {
        Some(set) => set,
        None => return false,
    };
    if distinct_nonzero(&s.outstanding_publishes).is_none() {
        return false;
    }
    let mut i: usize = 0;
    while i < s.outstanding_publishes.len()
        invariant
            i <= s.outstanding_publishes@.len(),
            forall|x: u16| #[trigger] requests@.contains(x) <==> saved_request_ids(s@).contains(x),
            forall|j: int| 0 <= j < i ==> !saved_request_ids(s@).contains(#[trigger] s.outstanding_publishes@[j]),
        decreases s.outstanding_publishes@.len() - i,
    {
        if requests.contains(&s.outstanding_publishes[i]) {
            return false;
        }
        i += 1;
    }
    let mut taken: HashSet<u16> = HashSet::new();
    let mut k: usize = 0;
    while k < s.queued.len()
        invariant
            k <= s.queued@.len(),
            forall|x: u16| #[trigger] requests@.contains(x) <==> saved_request_ids(s@).contains(x),
            forall|j: int| 0 <= j < k ==> saved_publication_ok(#[trigger] s.queued@[j].1, s.mqtt_version),
            forall|j: int| 0 <= j < k && (#[trigger] queued_id(s.queued@[j].1)) is Some ==> !saved_request_ids(
                s@,
            ).contains(queued_id(s.queued@[j].1)->0),
            forall|a: int, b: int| 0 <= a < b < k && (#[trigger] queued_id(s.queued@[a].1)) is Some ==> queued_id(
                s.queued@[a].1,
            ) != #[trigger] queued_id(s.queued@[b].1),
            forall|x: u16| #[trigger] taken@.contains(x) <==> exists|j: int| 0 <= j < k && #[trigger] queued_id(
                s.queued@[j].1,
            ) == Some(x),
        decreases s.queued@.len() - k,
    {
        let c = &s.queued[k].1;
        if !saved_publication_valid(c, s.mqtt_version) {
            return false;
        }
        if c.qos > 0 {
            let id = match c.packet_id {
                Some(id) => id,
                None => return false,
            };
            assert(queued_id(s.queued@[k as int].1) == Some(id));
            if requests.contains(&id) {
                return false;
            }
            if !taken.insert(id) {
                proof {
                    let j = choose|j: int| 0 <= j < k && #[trigger] queued_id(s.queued@[j].1) == Some(id);
                    assert(queued_id(s.queued@[j].1) == queued_id(s.queued@[k as int].1));
                }
                return false;
            }
            assert forall|x: u16| #[trigger] taken@.contains(x) <==> exists|j: int| 0 <= j < k + 1 && #[trigger] queued_id(
                s.queued@[j].1,
            ) == Some(x) by {
                if x == id {
                    assert(queued_id(s.queued@[k as int].1) == Some(x));
                }
            }
            assert forall|a: int, b: int| 0 <= a < b < k + 1 && (#[trigger] queued_id(s.queued@[a].1)) is Some implies queued_id(
                s.queued@[a].1,
            ) != #[trigger] queued_id(s.queued@[b].1) by {
                if b == k {
                    if queued_id(s.queued@[a].1) == Some(id) {
                        assert(exists|j: int| 0 <= j < k && #[trigger] queued_id(s.queued@[j].1) == Some(id));
                    }
                }
            }
        } else {
            assert(queued_id(s.queued@[k as int].1) is None);
            assert forall|x: u16| #[trigger] taken@.contains(x) <==> exists|j: int| 0 <= j < k + 1 && #[trigger] queued_id(
                s.queued@[j].1,
            ) == Some(x) by {
                if exists|j: int| 0 <= j < k + 1 && #[trigger] queued_id(s.queued@[j].1) == Some(x) {
                    let j = choose|j: int| 0 <= j < k + 1 && #[trigger] queued_id(s.queued@[j].1) == Some(x);
                    assert(j < k);
                }
            }
        }
        k += 1;
    }
    true
}

/// An item has one place to go in a queue.
proof fn lemma_slot_unique(q: Seq<(u8, PublishCommand)>, k1: int, k2: int, p: u8)
    requires
        slot_for(q, k1, p),
        slot_for(q, k2, p),
    ensures
        k1 == k2,
{
    if k1 < k2 {
        assert(q[k1].0 < p);
        assert(q[k1].0 >= p);
    } else if k2 < k1 {
        assert(q[k2].0 < p);
        assert(q[k2].0 >= p);
    }
}

/// The saved publications queued again, one after another.
fn requeue(items: Vec<(u8, PublishCommand)>) -> (r: PriorityQueue<PublishCommand>)
    requires
        items@.len() <= QUEUE_CAPACITY,
    ensures
        r.wf(),
        r.spec_capacity() == QUEUE_CAPACITY,
        r@ == queue_of(items@),
        forall|i: int| 0 <= i < r@.len() ==> exists|j: int| 0 <= j < items@.len() && #[trigger] r@[i] == items@[j],
{
    let ghost all = items@;
    let mut items = items;
    let mut queue: PriorityQueue<PublishCommand> = PriorityQueue::new(QUEUE_CAPACITY);
    let mut n: usize = 0;
    assert(all.take(0) =~= Seq::<(u8, PublishCommand)>::empty());
    while items.len() > 0
        invariant
            all.len() <= QUEUE_CAPACITY,
            n + items@.len() == all.len(),
            items@ == all.skip(n as int),
            queue.wf(),
            queue.spec_capacity() == QUEUE_CAPACITY,
            queue@ == queue_of(all.take(n as int)),
            queue@.len() == n,
            forall|i: int| 0 <= i < queue@.len() ==> exists|j: int| 0 <= j < n && #[trigger] queue@[i] == all[j],
        decreases items@.len(),
    {
        let ghost before = queue@;
        let item = items.remove(0);
        assert(item == all[n as int]);
        let added = queue.enqueue(item.0, item.1);
        proof {
            let t = all.take(n + 1);
            assert(t.drop_last() =~= all.take(n as int));
            assert(t.last() == item);
            let k = choose|k: int| slot_for(before, k, item.0) && queue@ == before.insert(k, (item.0, item.1));
            let c = choose|c: int| slot_for(before, c, item.0);
            lemma_slot_unique(before, k, c, item.0);
            assert(items@ =~= all.skip(n + 1));
            assert forall|i: int| 0 <= i < queue@.len() implies exists|j: int| 0 <= j < n + 1 && #[trigger] queue@[i]
                == all[j] by {
                if i < k {
                    assert(queue@[i] == before[i]);
                } else if i == k {
                    assert(queue@[i] == all[n as int]);
                } else {
                    assert(queue@[i] == before[i - 1]);
                }
            }
        }
        n += 1;
    }
    assert(all.take(n as int) =~= all);
    queue
}

/// The awaited publications of a saved session, each counted as sent at
/// time 0.
fn pending_from_ids(ids: &Vec<u16>) -> (r: Vec<(u16, u64)>)
    ensures
        r@ == ids@.map_values(|id: u16| (id, 0u64)),
{
    let mut r: Vec<(u16, u64)> = Vec::new();
    let mut i: usize = 0;
    while i < ids.len()
        invariant
            i <= ids@.len(),
            r@ == ids@.take(i as int).map_values(|id: u16| (id, 0u64)),
        decreases ids@.len() - i,
    {
        r.push((ids[i], 0));
        assert(ids@.take(i + 1).map_values(|id: u16| (id, 0u64)) =~= ids@.take(i as int).map_values(
            |id: u16| (id, 0u64),
        ).push((ids@[i as int], 0u64)));
        i += 1;
    }
    assert(ids@.take(i as int) =~= ids@);
    r
}

/// A table of the requests of a saved session, which has each identifier
/// once.
fn requests_table(v: Vec<(u16, Vec<String>)>) -> (r: HashMap<u16, Vec<String>>)
    requires
        distinct_keys(v@),
    ensures
        r@ == pairs_map(v@),
{
    let ghost all = v@;
    let total = v.len();
    assert(all.len() == total);
    let mut v = v;
    let mut m: HashMap<u16, Vec<String>> = HashMap::new();
    let mut n: usize = 0;
    assert(pairs_map(all.take(0)) =~= Map::<u16, Vec<String>>::empty());
    while v.len() > 0
        invariant
            distinct_keys(all),
            all.len() <= usize::MAX,
            n + v@.len() == all.len(),
            v@ == all.skip(n as int),
            m@ == pairs_map(all.take(n as int)),
        decreases v@.len(),
    {
        let item = v.remove(0);
        assert(item == all[n as int]);
        proof {
            let t = all.take(n as int);
            assert(distinct_keys(t));
            assert(!has_key(t, item.0)) by {
                if has_key(t, item.0) {
                    let j = choose|j: int| 0 <= j < t.len() && (#[trigger] t[j]).0 == item.0;
                    assert(all[j].0 != all[n as int].0);
                }
            }
            lemma_map_push(t, item.0, item.1);
            assert(all.take(n + 1) =~= t.push((item.0, item.1)));
            assert(v@ =~= all.skip(n + 1));
        }
        m.insert(item.0, item.1);
        n += 1;
    }
    assert(all.take(n as int) =~= all);
    m
}

impl MqttEngine {
    /// Saves the session without changing the engine: the next packet
    /// identifier, the publications waiting for a connection and the
    /// requests awaiting acknowledgement, with the broker, client and
    /// version they belong to. Connection state is not saved. Refused when
    /// the engine tracks no session or has no client id.
    pub fn snapshot_session(&self) -> (r: Result<SessionSnapshot, MqttClientError>)
        requires
            self.wf(),
        ensures
            (r is Err) <==> snapshot_refused(self.spec_options()),
            r matches Ok(s) ==> snapshot_of(self@, self.spec_options(), s@),
    {
        if self.options.sessionless || self.options.client_id.as_str().unicode_len() == 0 {
            return Err(invalid_session("Checkpointing requires session tracking and a client ID"));
        }
        let packet_id_counter = match &self.session {
            Some(session) => session.upcoming(),
            None => 0,
        };
        let mut queued: Vec<(u8, PublishCommand)> = Vec::new();
        let mut i: usize = 0;
        while i < self.priority_queue.len()
            invariant
                i <= self@.queue.len(),
                queued@.len() == i,
                forall|j: int| 0 <= j < i ==> (#[trigger] queued@[j]).0 == self@.queue[j].0 && saved_command(
                    self@.queue[j].1,
                    queued@[j].1,
                    self@.version,
                ),
            decreases self@.queue.len() - i,
        {
            let item = self.priority_queue.get(i);
            queued.push((item.0, save_command(&item.1, self.mqtt_version)));
            i += 1;
        }
        let mut outstanding_publishes: Vec<u16> = Vec::new();
        let mut k: usize = 0;
        while k < self.pending_publishes.len()
            invariant
                k <= self.pending_publishes@.len(),
                outstanding_publishes@ == publish_ids(self.pending_publishes@.take(k as int)),
            decreases self.pending_publishes@.len() - k,
        {
            outstanding_publishes.push(self.pending_publishes[k].0);
            assert(publish_ids(self.pending_publishes@.take(k + 1)) =~= publish_ids(
                self.pending_publishes@.take(k as int),
            ).push(self.pending_publishes@[k as int].0));
            k += 1;
        }
        assert(self.pending_publishes@.take(k as int) =~= self.pending_publishes@);
        let outstanding_subscribes = list_requests(&self.pending_subscribes);
        let outstanding_unsubscribes = list_requests(&self.pending_unsubscribes);
        Ok(SessionSnapshot {
            version: SESSION_STATE_VERSION,
            peer: self.options.peer.clone(),
            client_id: self.options.client_id.clone(),
            mqtt_version: self.mqtt_version,
            packet_id_counter,
            queued,
            outstanding_publishes,
            outstanding_subscribes,
            outstanding_unsubscribes,
        })
    }

    /// Takes up a saved session in a fresh engine, before CONNECT or any
    /// request: the session resumes at the saved identifier, the saved
    /// publications are queued again, and the requests awaiting
    /// acknowledgement are awaited again. Connection settings come from the
    /// engine's own options. Saved state that cannot be taken up is refused
    /// and leaves the engine as it was.
    pub fn restore_session_state(&mut self, saved: SessionSnapshot) -> (r: Result<(), MqttClientError>)
        requires
            old(self).wf(),
        ensures
            final(self).wf(),
            final(self).spec_options() == old(self).spec_options(),
            final(self).last_sent() == old(self).last_sent(),
            final(self).last_received() == old(self).last_received(),
            final(self).unparsed() == old(self).unparsed(),
            (r is Ok) <==> restorable(old(self)@, old(self).spec_options(), saved@),
            r is Ok ==> final(self)@ == restored(old(self)@, saved@),
            r is Err ==> final(self)@ == old(self)@,
            !fresh_engine(old(self)@) ==> (r matches Err(MqttClientError::InvalidState { .. })),
            fresh_engine(old(self)@) && r is Err ==> (r matches Err(MqttClientError::InvalidConfiguration { .. })),
    {
        if self.session.is_some() || self.is_connected || self.priority_queue.len() > 0 || self.outgoing_buffer.len() > 0
            || self.pending_publishes.len() > 0 || self.pending_subscribes.len() > 0 || self.pending_unsubscribes.len() > 0
        {
            return Err(
                MqttClientError::InvalidState {
                    expected: "a fresh engine before CONNECT or commands".to_owned(),
                    actual: "engine already in use".to_owned(),
                },
            );
        }
        if saved.version != SESSION_STATE_VERSION {
            return Err(invalid_session("Unsupported session state version"));
        }
        if self.options.sessionless || self.options.clean_start {
            return Err(invalid_session("Resumption requires session tracking and clean_start(false)"));
        }
        if saved.client_id.as_str().unicode_len() == 0 || !(saved.client_id == self.options.client_id) || !(saved.peer
            == self.options.peer) || saved.mqtt_version != self.mqtt_version || saved.mqtt_version < 3
            || saved.mqtt_version > 5 {
            return Err(invalid_session("Saved broker/client identity or MQTT version does not match"));
        }
        if saved.queued.len() > QUEUE_CAPACITY {
            return Err(invalid_session("Saved publications exceed the queue capacity"));
        }
        if !check_saved_ids(&saved) {
            return Err(invalid_session("Invalid, duplicate or inconsistent saved packet identifier or publication"));
        }
        proof {
            let s = saved@;
            let subs = s.outstanding_subscribes;
            let unsubs = s.outstanding_unsubscribes;
            let ids = saved_request_ids(s);
            assert forall|a: int, b: int| 0 <= a < b < subs.len() implies (#[trigger] subs[a]).0 != (#[trigger] subs[b]).0 by {
                assert(ids[a] == subs[a].0 && ids[b] == subs[b].0);
            }
            assert forall|a: int, b: int| 0 <= a < b < unsubs.len() implies (#[trigger] unsubs[a]).0 != (
            #[trigger] unsubs[b]).0 by {
                assert(ids[subs.len() + a] == unsubs[a].0 && ids[subs.len() + b] == unsubs[b].0);
            }
        }
        let ghost s0 = saved@;
        let SessionSnapshot {
            packet_id_counter,
            queued,
            outstanding_publishes,
            outstanding_subscribes,
            outstanding_unsubscribes,
            ..
        } = saved;
        self.session = if packet_id_counter == 0 {
            None
        } else {
            Some(ClientSession::resume(packet_id_counter))
        };
        self.priority_queue = requeue(queued);
        self.pending_publishes = pending_from_ids(&outstanding_publishes);
        self.pending_subscribes = requests_table(outstanding_subscribes);
        self.pending_unsubscribes = requests_table(outstanding_unsubscribes);
        proof {
            let q = self.priority_queue@;
            assert forall|i: int| 0 <= i < q.len() && #[trigger] q[i].1.qos > 0 implies q[i].1.packet_id is Some by {
                let j = choose|j: int| 0 <= j < s0.queued.len() && q[i] == s0.queued[j];
                assert(saved_publication_ok(s0.queued[j].1, s0.mqtt_version));
            }
            assert(self@ == restored(old(self)@, s0));
        }
        Ok(())
    }
}

/// A publication the engine may hold in its queue for a saved session to
/// keep: QoS 0 to 2, a topic it may publish to, no identifier and no DUP
/// flag at QoS 0, and a nonzero identifier above it.
pub open spec fn queue_entry_savable(c: PublishCommand) -> bool {
    &&& c.qos <= 2
    &&& topic_ok(c.topic_name@)
    &&& c.qos == 0 ==> c.packet_id is None && !c.dup
    &&& c.qos > 0 ==> (c.packet_id matches Some(id) && id != 0)
}

/// An engine state whose session a saved state can carry: a well-formed
/// session and queue of a version from 3 to 5, its queued publications
/// ones a session may hold, and its identifiers nonzero and each in use
/// once (a queued publication may also be awaited under its own).
pub open spec fn session_savable(e: EngineV) -> bool {
    let pubs = publish_ids(e.pending_publishes);
    &&& e.session != Some(0u16)
    &&& 3 <= e.version <= 5
    &&& by_priority(e.queue) && e.queue.len() <= QUEUE_CAPACITY
    &&& forall|i: int| 0 <= i < e.queue.len() ==> queue_entry_savable(#[trigger] e.queue[i].1)
    &&& nonzero(pubs) && no_repeats(pubs)
    &&& forall|k: u16| #[trigger] e.pending_subscribes.contains_key(k) ==> k != 0 && !e.pending_unsubscribes.contains_key(k)
        && !pubs.contains(k)
    &&& forall|k: u16| #[trigger] e.pending_unsubscribes.contains_key(k) ==> k != 0 && !pubs.contains(k)
    &&& forall|i: int| 0 <= i < e.queue.len() && (#[trigger] queued_id(e.queue[i].1)) is Some ==> !e.pending_subscribes.contains_key(
        queued_id(e.queue[i].1)->0,
    ) && !e.pending_unsubscribes.contains_key(queued_id(e.queue[i].1)->0)
    &&& forall|i: int, j: int| 0 <= i < j < e.queue.len() && (#[trigger] queued_id(e.queue[i].1)) is Some ==> queued_id(
        e.queue[i].1,
    ) != #[trigger] queued_id(e.queue[j].1)
}

/// Leaving out topic aliases leaves none, and changes nothing where there
/// are none.
proof fn lemma_without_aliases(ps: Seq<PropertyV>)
    ensures
        forall|i: int| 0 <= i < without_aliases(ps).len() ==> !is_topic_alias(#[trigger] without_aliases(ps)[i]),
        (forall|i: int| 0 <= i < ps.len() ==> !is_topic_alias(#[trigger] ps[i])) ==> without_aliases(ps) == ps,
    decreases ps.len(),
{
    if ps.len() > 0 {
        lemma_without_aliases(ps.drop_last());
        let w = without_aliases(ps.drop_last());
        if !is_topic_alias(ps.last()) {
            assert forall|i: int| 0 <= i < w.push(ps.last()).len() implies !is_topic_alias(#[trigger] w.push(ps.last())[i]) by {
                if i < w.len() {
                    assert(w.push(ps.last())[i] == w[i]);
                }
            }
        }
        if forall|i: int| 0 <= i < ps.len() ==> !is_topic_alias(#[trigger] ps[i]) {
            assert forall|i: int| 0 <= i < ps.drop_last().len() implies !is_topic_alias(#[trigger] ps.drop_last()[i]) by {
                assert(ps.drop_last()[i] == ps[i]);
            }
            assert(!is_topic_alias(ps[ps.len() - 1]));
            assert(ps.drop_last().push(ps.last()) =~= ps);
        }
    }
}

/// Items already in the order they leave are queued again in that order.
proof fn lemma_queue_of_sorted(items: Seq<(u8, PublishCommand)>)
    requires
        by_priority(items),
    ensures
        queue_of(items) == items,
    decreases items.len(),
{
    if items.len() > 0 {
        let init = items.drop_last();
        assert forall|i: int, j: int| 0 <= i < j < init.len() implies #[trigger] init[i].0 >= #[trigger] init[j].0 by {
            assert(init[i] == items[i] && init[j] == items[j]);
        }
        lemma_queue_of_sorted(init);
        let p = items.last().0;
        assert forall|i: int| 0 <= i < init.len() implies #[trigger] init[i].0 >= p by {
            assert(init[i] == items[i]);
            assert(items[i].0 >= items[items.len() - 1].0);
        }
        assert(slot_for(init, init.len() as int, p));
        let k = choose|k: int| slot_for(init, k, p);
        lemma_slot_unique(init, k, init.len() as int, p);
        assert(init.insert(init.len() as int, items.last()) =~= items);
    }
}

/// A session saved from an engine and taken up by a fresh engine of the
/// same broker, client and version, whose options track sessions and do
/// not start clean, comes back whole: the fresh engine accepts it, resumes
/// at the same next identifier, queues the same publications in the same
/// order, and awaits the same publications, subscriptions and
/// unsubscriptions; saving it again gives the same snapshot.
pub proof fn law_snapshot_restore(e: EngineV, o: MqttClientOptions, s: SnapshotV, f: EngineV, o2: MqttClientOptions)
    requires
        snapshot_of(e, o, s),
        session_savable(e),
        fresh_engine(f),
        f.version == e.version,
        o2.peer@ == o.peer@,
        o2.client_id@ == o.client_id@,
        o2.client_id@.len() > 0,
        !o2.sessionless,
        !o2.clean_start,
    ensures
        restorable(f, o2, s),
        restored(f, s).session == e.session,
        restored(f, s).queue == s.queued,
        publish_ids(restored(f, s).pending_publishes) == publish_ids(e.pending_publishes),
        same_requests(restored(f, s).pending_subscribes, e.pending_subscribes),
        same_requests(restored(f, s).pending_unsubscribes, e.pending_unsubscribes),
        snapshot_of(restored(f, s), o2, s),
{
    let v = e.version;
    let subs = s.outstanding_subscribes;
    let unsubs = s.outstanding_unsubscribes;
    let ids = saved_request_ids(s);
    let pubs = s.outstanding_publishes;
    assert(ids.len() == subs.len() + unsubs.len());
    assert forall|i: int| 0 <= i < ids.len() implies (i < subs.len() ==> ids[i] == subs[i].0 && e.pending_subscribes.contains_key(ids[i]))
        && (i >= subs.len() ==> ids[i] == unsubs[i - subs.len()].0 && e.pending_unsubscribes.contains_key(ids[i])) by {
        if i < subs.len() {
            lemma_map_at(subs, i);
        } else {
            lemma_map_at(unsubs, i - subs.len());
        }
    }
    assert(nonzero(ids));
    assert forall|a: int, b: int| 0 <= a < b < ids.len() implies #[trigger] ids[a] != #[trigger] ids[b] by {
        if b < subs.len() {
        } else if a >= subs.len() {
            assert(unsubs[a - subs.len()].0 != unsubs[b - subs.len()].0);
        }
    }
    assert forall|i: int| 0 <= i < pubs.len() implies !ids.contains(#[trigger] pubs[i]) by {
        assert(pubs[i] == publish_ids(e.pending_publishes)[i]);
        if ids.contains(pubs[i]) {
            let j = choose|j: int| 0 <= j < ids.len() && ids[j] == pubs[i];
            assert(publish_ids(e.pending_publishes).contains(pubs[i]));
        }
    }
    assert forall|i: int| 0 <= i < s.queued.len() implies saved_publication_ok(#[trigger] s.queued[i].1, s.mqtt_version) by {
        assert(queue_entry_savable(e.queue[i].1));
        let d = s.queued[i].1;
        if v == 5 {
            lemma_without_aliases(views(e.queue[i].1.properties@));
            assert forall|j: int| 0 <= j < d.properties@.len() implies !is_topic_alias(#[trigger] d.properties@[j]@) by {
                assert(d.properties@[j]@ == views(d.properties@)[j]);
            }
        }
    }
    assert forall|i: int| 0 <= i < s.queued.len() && (#[trigger] queued_id(s.queued[i].1)) is Some implies !ids.contains(
        queued_id(s.queued[i].1)->0,
    ) by {
        assert(queued_id(s.queued[i].1) == queued_id(e.queue[i].1));
        if ids.contains(queued_id(s.queued[i].1)->0) {
            let j = choose|j: int| 0 <= j < ids.len() && ids[j] == queued_id(s.queued[i].1)->0;
        }
    }
    assert forall|a: int, b: int| 0 <= a < b < s.queued.len() && (#[trigger] queued_id(s.queued[a].1)) is Some implies queued_id(
        s.queued[a].1,
    ) != #[trigger] queued_id(s.queued[b].1) by {
        assert(queued_id(s.queued[a].1) == queued_id(e.queue[a].1));
        assert(queued_id(s.queued[b].1) == queued_id(e.queue[b].1));
    }
    assert(ids_acceptable(s));
    assert forall|i: int, j: int| 0 <= i < j < s.queued.len() implies #[trigger] s.queued[i].0 >= #[trigger] s.queued[j].0 by {
        assert(e.queue[i].0 >= e.queue[j].0);
    }
    lemma_queue_of_sorted(s.queued);
    let r = restored(f, s);
    assert(publish_ids(r.pending_publishes) =~= pubs);
    assert forall|i: int| 0 <= i < s.queued.len() implies (#[trigger] s.queued[i]).0 == r.queue[i].0 && saved_command(
        r.queue[i].1,
        s.queued[i].1,
        r.version,
    ) by {
        if v == 5 {
            lemma_without_aliases(views(e.queue[i].1.properties@));
            lemma_without_aliases(views(s.queued[i].1.properties@));
        }
    }
}

/// The CONNECT the engine queues carries what the options give: the client
/// id, keep-alive and clean-start flag in every version, and in MQTT 5 the
/// options' user name and password; no will and no properties. MQTT 3.1.1
/// sends no credentials.
pub proof fn law_connect_carries_options(o: MqttClientOptions, version: u8)
    ensures
        connect_view(o, version).client_id == o.client_id@,
        connect_view(o, version).keep_alive == o.keep_alive,
        connect_view(o, version).clean_start == o.clean_start,
        connect_view(o, version).will is None,
        connect_view(o, version).properties.len() == 0,
        o.username matches Some(u) ==> connect_view(o, 5).username == Some(u@),
        o.username is None ==> connect_view(o, 5).username is None,
        o.password matches Some(pw) ==> connect_view(o, 5).password == Some(pw@),
        o.password is None ==> connect_view(o, 5).password is None,
        version != 5 ==> connect_view(o, version).username is None && connect_view(o, version).password is None,
{
}

/// The QoS 2 handshake and the acknowledgements: PUBREC is answered with
/// PUBREL and PUBREL with PUBCOMP, each plain and under the same
/// identifier; PUBACK settles a QoS 1 publication and PUBCOMP a QoS 2 one,
/// each reported once with its QoS and identifier; SUBACK and UNSUBACK end
/// the request they answer.
pub proof fn law_acknowledgements(s: EngineV, a: MqttAck, x: crate::codec::packet::MqttSubAck)
    ensures
        apply_packet(s, MqttPacket::PubRec(a)) == (EngineV {
            outgoing: s.outgoing.push(
                packet_bytes(PacketV::PubRel(AckV { packet_id: a.packet_id, reason_code: 0, properties: seq![] }), s.version),
            ),
            ..s
        }),
        apply_packet(s, MqttPacket::PubRel(a)) == (EngineV {
            outgoing: s.outgoing.push(
                packet_bytes(PacketV::PubComp(AckV { packet_id: a.packet_id, reason_code: 0, properties: seq![] }), s.version),
            ),
            ..s
        }),
        has_id(s.pending_publishes, a.packet_id) ==> (apply_packet(s, MqttPacket::PubAck(a)).events.last() matches MqttEvent::Published(r)
            && r.qos == 1 && r.packet_id == Some(a.packet_id)),
        has_id(s.pending_publishes, a.packet_id) ==> (apply_packet(s, MqttPacket::PubComp(a)).events.last() matches MqttEvent::Published(r)
            && r.qos == 2 && r.packet_id == Some(a.packet_id)),
        !has_id(apply_packet(s, MqttPacket::PubAck(a)).pending_publishes, a.packet_id),
        !has_id(apply_packet(s, MqttPacket::PubComp(a)).pending_publishes, a.packet_id),
        !apply_packet(s, MqttPacket::SubAck(x)).pending_subscribes.contains_key(x.packet_id),
        !apply_packet(s, MqttPacket::UnsubAck(x)).pending_unsubscribes.contains_key(x.packet_id),
{
    lemma_without_id(s.pending_publishes, a.packet_id);
    if !has_id(s.pending_publishes, a.packet_id) {
        assert(acknowledged(s, a, 1) == s);
    }
}

} // verus!
