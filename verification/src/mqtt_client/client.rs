//! What the client reports when an operation completes, and the state and
//! decisions of the blocking client: what it sends for each request, which
//! reply it waits for, and what it keeps between requests.

use vstd::prelude::*;
use std::collections::HashMap;
use crate::codec::packet::{
    copy_strings, copy_will, AckV, ConnectV, MqttConnect, MqttPacket, MqttPublish, SubAckV,
    MqttSubscribe, MqttUnsubscribe, PacketV, PublishV, SubscribeV, TopicSubscription, TopicSubscriptionV,
    UnsubscribeV,
};
use crate::codec::property::{views, Property};
use crate::codec::wire::copy_bytes;
use super::opts::MqttClientOptions;
use super::session::{following_id, ClientSession};

verus! {

/// A topic the client is subscribed to, with its granted QoS.
#[derive(Debug, Clone, PartialEq)]
pub struct Subscription {
    pub topic: String,
    pub qos: u8,
}

/// The outcome of a connection attempt (CONNACK).
#[derive(Debug, Clone, PartialEq)]
pub struct ConnectionResult {
    pub reason_code: u8,
    pub session_present: bool,
    pub properties: Option<Vec<Property>>,
}

/// The text that describes a CONNACK reason code.
pub open spec fn reason_text(code: u8) -> Seq<char> {
    match code {
        0 => "Success"@,
        1 => "Unspecified error"@,
        2 => "Malformed Packet"@,
        3 => "Protocol Error"@,
        4 => "Implementation specific error"@,
        5 => "Unsupported Protocol Version"@,
        6 => "Client Identifier not valid"@,
        7 => "Bad User Name or Password"@,
        8 => "Not authorized"@,
        9 => "Server unavailable"@,
        10 => "Server busy"@,
        11 => "Banned"@,
        12 => "Bad authentication method"@,
        13 => "Keep Alive timeout"@,
        14 => "Session taken over"@,
        15 => "Topic Filter invalid"@,
        16 => "Topic Name invalid"@,
        17 => "Packet identifier in use"@,
        18 => "Packet Identifier not found"@,
        19 => "Receive Maximum exceeded"@,
        20 => "Topic Alias invalid"@,
        21 => "Packet too large"@,
        22 => "Message rate too high"@,
        23 => "Quota exceeded"@,
        24 => "Administrative action"@,
        25 => "Payload format invalid"@,
        26 => "Retain not supported"@,
        27 => "QoS not supported"@,
        28 => "Use another server"@,
        29 => "Server moved"@,
        30 => "Shared Subscriptions not supported"@,
        31 => "Connection rate exceeded"@,
        32 => "Maximum connect time"@,
        33 => "Subscription Identifiers not supported"@,
        34 => "Wildcard Subscriptions not supported"@,
        _ => "Unknown reason code"@,
    }
}

impl ConnectionResult {
    /// Whether the server accepted the connection (reason code 0).
    pub fn is_success(&self) -> (r: bool)
        ensures
            r == (self.reason_code == 0),
    {
        self.reason_code == 0
    }

    /// Whether the server refused the connection.
    pub fn is_failure(&self) -> (r: bool)
        ensures
            r == (self.reason_code != 0),
    {
        self.reason_code != 0
    }

    /// A description of the reason code.
    pub fn reason_description(&self) -> (r: &'static str)
        ensures
            r@ == reason_text(self.reason_code),
    {
        match self.reason_code {
            0 => "Success",
            1 => "Unspecified error",
            2 => "Malformed Packet",
            3 => "Protocol Error",
            4 => "Implementation specific error",
            5 => "Unsupported Protocol Version",
            6 => "Client Identifier not valid",
            7 => "Bad User Name or Password",
            8 => "Not authorized",
            9 => "Server unavailable",
            10 => "Server busy",
            11 => "Banned",
            12 => "Bad authentication method",
            13 => "Keep Alive timeout",
            14 => "Session taken over",
            15 => "Topic Filter invalid",
            16 => "Topic Name invalid",
            17 => "Packet identifier in use",
            18 => "Packet Identifier not found",
            19 => "Receive Maximum exceeded",
            20 => "Topic Alias invalid",
            21 => "Packet too large",
            22 => "Message rate too high",
            23 => "Quota exceeded",
            24 => "Administrative action",
            25 => "Payload format invalid",
            26 => "Retain not supported",
            27 => "QoS not supported",
            28 => "Use another server",
            29 => "Server moved",
            30 => "Shared Subscriptions not supported",
            31 => "Connection rate exceeded",
            32 => "Maximum connect time",
            33 => "Subscription Identifiers not supported",
            34 => "Wildcard Subscriptions not supported",
            _ => "Unknown reason code",
        }
    }
}

/// Whether a SUBACK reason code grants a subscription (QoS 0, 1 or 2).
pub open spec fn granted(code: u8) -> bool {
    code <= 2
}

/// The number of granting codes in a list.
pub open spec fn granted_count(codes: Seq<u8>) -> nat
    decreases codes.len(),
{
    if codes.len() == 0 {
        0
    } else {
        granted_count(codes.drop_last()) + if granted(codes.last()) { 1nat } else { 0nat }
    }
}

/// The outcome of a subscription request (SUBACK).
#[derive(Debug, Clone, PartialEq)]
pub struct SubscribeResult {
    pub packet_id: u16,
    pub reason_codes: Vec<u8>,
    pub properties: Vec<Property>,
}

impl SubscribeResult {
    /// Whether every filter was granted.
    pub fn is_success(&self) -> (r: bool)
        ensures
            r == (forall|i: int| 0 <= i < self.reason_codes@.len() ==> granted(#[trigger] self.reason_codes@[i])),
    {
        let mut i: usize = 0;
        while i < self.reason_codes.len()
            invariant
                i <= self.reason_codes@.len(),
                forall|j: int| 0 <= j < i ==> granted(#[trigger] self.reason_codes@[j]),
            decreases self.reason_codes@.len() - i,
        {
            if self.reason_codes[i] > 2 {
                return false;
            }
            i += 1;
        }
        true
    }

    /// The number of filters granted.
    pub fn successful_subscriptions(&self) -> (r: usize)
        ensures
            r == granted_count(self.reason_codes@),
    {
        let mut n: usize = 0;
        let mut i: usize = 0;
        while i < self.reason_codes.len()
            invariant
                i <= self.reason_codes@.len(),
                n == granted_count(self.reason_codes@.take(i as int)),
                n <= i,
            decreases self.reason_codes@.len() - i,
        {
            assert(self.reason_codes@.take(i + 1).drop_last() == self.reason_codes@.take(i as int));
            if self.reason_codes[i] <= 2 {
                n += 1;
            }
            i += 1;
        }
        assert(self.reason_codes@.take(i as int) == self.reason_codes@);
        n
    }
}

/// Whether an UNSUBACK reason code counts as done: Success, or No
/// subscription existed.
pub open spec fn unsubscribed(code: u8) -> bool {
    code == 0 || code == 17
}

/// The outcome of an unsubscription request (UNSUBACK).
#[derive(Debug, Clone, PartialEq)]
pub struct UnsubscribeResult {
    pub packet_id: u16,
    pub reason_codes: Vec<u8>,
    pub properties: Vec<Property>,
}

impl UnsubscribeResult {
    /// Whether every filter is gone.
    pub fn is_success(&self) -> (r: bool)
        ensures
            r == (forall|i: int| 0 <= i < self.reason_codes@.len() ==> unsubscribed(#[trigger] self.reason_codes@[i])),
    {
        let mut i: usize = 0;
        while i < self.reason_codes.len()
            invariant
                i <= self.reason_codes@.len(),
                forall|j: int| 0 <= j < i ==> unsubscribed(#[trigger] self.reason_codes@[j]),
            decreases self.reason_codes@.len() - i,
        {
            let c = self.reason_codes[i];
            if !(c == 0 || c == 17) {
                return false;
            }
            i += 1;
        }
        true
    }
}

/// The outcome of a publication: PUBACK for QoS 1, PUBCOMP for QoS 2.
#[derive(Debug, Clone, PartialEq)]
pub struct PublishResult {
    pub packet_id: Option<u16>,
    /// `None` for QoS 0.
    pub reason_code: Option<u8>,
    pub properties: Option<Vec<Property>>,
    pub qos: u8,
}

impl PublishResult {
    /// Whether the publication succeeded: QoS 0, or reason code 0.
    pub fn is_success(&self) -> (r: bool)
        ensures
            r == (self.reason_code matches Some(c) ==> c == 0),
    {
        match self.reason_code {
            Some(c) => c == 0,
            None => true,
        }
    }
}

/// The answer to a PINGREQ.
#[derive(Debug, Clone, PartialEq)]
pub struct PingResult {
    pub success: bool,
}

/// The state of the blocking client apart from its connection.
pub struct Context {
    peer: String,
    session: Option<ClientSession>,
    session_present: bool,
    /// The topic of each SUBSCRIBE sent without waiting, by packet identifier.
    pending_subscribes: HashMap<u16, String>,
    /// The topics of each UNSUBSCRIBE sent without waiting.
    pending_unsubscribes: HashMap<u16, Vec<String>>,
    /// The topic and QoS of each PUBLISH sent without waiting.
    pending_publishes: HashMap<u16, (String, u8)>,
    /// Packets that arrived while the client waited for another.
    unhandled_packets: Vec<MqttPacket>,
}

impl Context {
    /// The context is for `peer`, holds `session`, and has nothing pending,
    /// no unhandled packet and no session reported present.
    pub closed spec fn is_fresh(&self, peer: Seq<char>, session: Option<ClientSession>) -> bool {
        &&& self.peer@ == peer
        &&& self.session == session
        &&& !self.session_present
        &&& self.pending_subscribes@ == Map::<u16, String>::empty()
        &&& self.pending_unsubscribes@ == Map::<u16, Vec<String>>::empty()
        &&& self.pending_publishes@ == Map::<u16, (String, u8)>::empty()
        &&& self.unhandled_packets@ == Seq::<MqttPacket>::empty()
    }

    /// A context for `peer` with no session and nothing pending.
    pub fn new(peer: String) -> (r: Self)
        ensures
            r.is_fresh(peer@, None),
    {
        Context {
            peer,
            session: None,
            session_present: false,
            pending_subscribes: HashMap::new(),
            pending_unsubscribes: HashMap::new(),
            pending_publishes: HashMap::new(),
            unhandled_packets: Vec::new(),
        }
    }

    /// A context for `peer` that continues `session`.
    pub fn new_with_sess(peer: String, session: ClientSession) -> (r: Self)
        ensures
            r.is_fresh(peer@, Some(session)),
    {
        Context {
            peer,
            session: Some(session),
            session_present: false,
            pending_subscribes: HashMap::new(),
            pending_unsubscribes: HashMap::new(),
            pending_publishes: HashMap::new(),
            unhandled_packets: Vec::new(),
        }
    }
}

/// The abstract state of the blocking client.
pub struct MqttClientV {
    pub options: MqttClientOptions,
    pub peer: Seq<char>,
    /// The identifier the session hands out next; `None` without a session.
    pub next_id: Option<u16>,
    pub session_present: bool,
    pub pending_subscribes: Map<u16, Seq<char>>,
    pub pending_unsubscribes: Map<u16, Seq<Seq<char>>>,
    pub pending_publishes: Map<u16, (Seq<char>, u8)>,
    pub unhandled: Seq<PacketV>,
}

/// The views of a list of strings.
pub open spec fn string_views(v: Seq<String>) -> Seq<Seq<char>> {
    v.map_values(|t: String| t@)
}

/// The state of the blocking client: its options and its context. The
/// connection itself is held by the caller, which sends what the client
/// prepares and hands back what arrives.
pub struct MqttClient {
    context: Context,
    options: MqttClientOptions,
}

impl View for MqttClient {
    type V = MqttClientV;

    closed spec fn view(&self) -> MqttClientV {
        MqttClientV {
            options: self.options,
            peer: self.context.peer@,
            next_id: match self.context.session {
                Some(s) => Some(s.upcoming_id()),
                None => None,
            },
            session_present: self.context.session_present,
            pending_subscribes: self.context.pending_subscribes@.map_values(|t: String| t@),
            pending_unsubscribes: self.context.pending_unsubscribes@.map_values(|v: Vec<String>| string_views(v@)),
            pending_publishes: self.context.pending_publishes@.map_values(|e: (String, u8)| (e.0@, e.1)),
            unhandled: self.context.unhandled_packets@.map_values(|p: MqttPacket| p@),
        }
    }
}

/// The CONNECT that the options ask for, with `clean_start` as given.
pub open spec fn connect_view(o: MqttClientOptions, clean_start: bool) -> PacketV {
    PacketV::Connect(ConnectV {
        client_id: o.client_id@,
        username: match o.username {
            Some(u) => Some(u@),
            None => None,
        },
        password: match o.password {
            Some(p) => Some(p@),
            None => None,
        },
        will: match o.will {
            Some(w) => Some(w@),
            None => None,
        },
        keep_alive: o.keep_alive,
        clean_start,
        properties: seq![],
    })
}

/// The SUBSCRIBE for one topic at `qos`, with default options.
pub open spec fn subscribe_view(id: u16, topic: Seq<char>, qos: u8) -> PacketV {
    PacketV::Subscribe(SubscribeV {
        packet_id: id,
        subscriptions: seq![TopicSubscriptionV {
            topic_filter: topic,
            qos,
            no_local: false,
            retain_as_published: false,
            retain_handling: 0,
        }],
        properties: seq![],
    })
}

/// The reply a blocking request waits for.
#[derive(Debug, Clone, Copy, PartialEq, Eq, Structural)]
pub enum Awaited {
    SubAck(u16),
    UnsubAck(u16),
    PubAck(u16),
    PubRec(u16),
    PubComp(u16),
    PingResp,
}

/// Whether `p` is the reply `a` names.
pub open spec fn answers(p: PacketV, a: Awaited) -> bool {
    match (p, a) {
        (PacketV::SubAck(x), Awaited::SubAck(id)) => x.packet_id == id,
        (PacketV::UnsubAck(x), Awaited::UnsubAck(id)) => x.packet_id == id,
        (PacketV::PubAck(x), Awaited::PubAck(id)) => x.packet_id == id,
        (PacketV::PubRec(x), Awaited::PubRec(id)) => x.packet_id == id,
        (PacketV::PubComp(x), Awaited::PubComp(id)) => x.packet_id == id,
        (PacketV::PingResp, Awaited::PingResp) => true,
        _ => false,
    }
}

/// Whether `p` is the reply `a` names.
pub fn is_awaited(p: &MqttPacket, a: Awaited) -> (r: bool)
    ensures
        r == answers(p@, a),
{
    match (p, a) {
        (MqttPacket::SubAck(x), Awaited::SubAck(id)) => x.packet_id == id,
        (MqttPacket::UnsubAck(x), Awaited::UnsubAck(id)) => x.packet_id == id,
        (MqttPacket::PubAck(x), Awaited::PubAck(id)) => x.packet_id == id,
        (MqttPacket::PubRec(x), Awaited::PubRec(id)) => x.packet_id == id,
        (MqttPacket::PubComp(x), Awaited::PubComp(id)) => x.packet_id == id,
        (MqttPacket::PingResp, Awaited::PingResp) => true,
        _ => false,
    }
}

/// The outcome a SUBACK reports; `None` for another packet.
pub fn suback_result(p: MqttPacket) -> (r: Option<SubscribeResult>)
    ensures
        match p {
            MqttPacket::SubAck(x) => r == Some(SubscribeResult {
                packet_id: x.packet_id,
                reason_codes: x.reason_codes,
                properties: x.properties,
            }),
            _ => r is None,
        },
{
    match p {
        MqttPacket::SubAck(x) => Some(SubscribeResult {
            packet_id: x.packet_id,
            reason_codes: x.reason_codes,
            properties: x.properties,
        }),
        _ => None,
    }
}

/// The outcome an UNSUBACK reports; `None` for another packet.
pub fn unsuback_result(p: MqttPacket) -> (r: Option<UnsubscribeResult>)
    ensures
        match p {
            MqttPacket::UnsubAck(x) => r == Some(UnsubscribeResult {
                packet_id: x.packet_id,
                reason_codes: x.reason_codes,
                properties: x.properties,
            }),
            _ => r is None,
        },
{
    match p {
        MqttPacket::UnsubAck(x) => Some(UnsubscribeResult {
            packet_id: x.packet_id,
            reason_codes: x.reason_codes,
            properties: x.properties,
        }),
        _ => None,
    }
}

/// The outcome of a publication that its last acknowledgement reports:
/// PUBACK completes QoS 1, PUBCOMP completes QoS 2; `None` for another
/// packet.
pub fn publish_ack_result(p: MqttPacket) -> (r: Option<PublishResult>)
    ensures
        match p {
            MqttPacket::PubAck(x) => r == Some(PublishResult {
                packet_id: Some(x.packet_id),
                reason_code: Some(x.reason_code),
                properties: Some(x.properties),
                qos: 1,
            }),
            MqttPacket::PubComp(x) => r == Some(PublishResult {
                packet_id: Some(x.packet_id),
                reason_code: Some(x.reason_code),
                properties: Some(x.properties),
                qos: 2,
            }),
            _ => r is None,
        },
{
    match p {
        MqttPacket::PubAck(x) => Some(PublishResult {
            packet_id: Some(x.packet_id),
            reason_code: Some(x.reason_code),
            properties: Some(x.properties),
            qos: 1,
        }),
        MqttPacket::PubComp(x) => Some(PublishResult {
            packet_id: Some(x.packet_id),
            reason_code: Some(x.reason_code),
            properties: Some(x.properties),
            qos: 2,
        }),
        _ => None,
    }
}

/// The outcome of a publication that waits for no acknowledgement.
pub fn unacknowledged_publish_result(packet_id: Option<u16>, qos: u8) -> (r: PublishResult)
    ensures
        r == (PublishResult { packet_id, reason_code: None, properties: None, qos }),
{
    PublishResult { packet_id, reason_code: None, properties: None, qos }
}

impl MqttClient {
    /// The session, when there is one, is well formed.
    pub closed spec fn wf(&self) -> bool {
        self.context.session matches Some(s) ==> s.wf()
    }

    /// A client for the options' peer, with no session yet.
    pub fn new(options: MqttClientOptions) -> (r: Self)
        ensures
            r.wf(),
            r@ == (MqttClientV {
                options,
                peer: options.peer@,
                next_id: None,
                session_present: false,
                pending_subscribes: Map::empty(),
                pending_unsubscribes: Map::empty(),
                pending_publishes: Map::empty(),
                unhandled: seq![],
            }),
    {
        let r = MqttClient { context: Context::new(options.peer.clone()), options };
        assert(r@.pending_subscribes =~= Map::empty());
        assert(r@.pending_unsubscribes =~= Map::empty());
        assert(r@.pending_publishes =~= Map::empty());
        assert(r@.unhandled =~= seq![]);
        r
    }

    /// A client for the options' peer that continues `session`.
    pub fn new_with_sess(options: MqttClientOptions, session: ClientSession) -> (r: Self)
        requires
            session.wf(),
        ensures
            r.wf(),
            r@ == (MqttClientV {
                options,
                peer: options.peer@,
                next_id: Some(session.upcoming_id()),
                session_present: false,
                pending_subscribes: Map::empty(),
                pending_unsubscribes: Map::empty(),
                pending_publishes: Map::empty(),
                unhandled: seq![],
            }),
    {
        let r = MqttClient { context: Context::new_with_sess(options.peer.clone(), session), options };
        assert(r@.pending_subscribes =~= Map::empty());
        assert(r@.pending_unsubscribes =~= Map::empty());
        assert(r@.pending_publishes =~= Map::empty());
        assert(r@.unhandled =~= seq![]);
        r
    }

    /// The broker address.
    pub fn peer(&self) -> (r: &String)
        ensures
            r@ == self@.peer,
    {
        &self.context.peer
    }

    /// Whether the broker reported a stored session in its last CONNACK.
    pub fn session_present(&self) -> (r: bool)
        ensures
            r == self@.session_present,
    {
        self.context.session_present
    }

    /// The packets that arrived while the client waited for another, for
    /// the caller to edit in place.
    pub fn unhandled_packets_mut(&mut self) -> (r: &mut Vec<MqttPacket>)
        ensures
            r@.map_values(|p: MqttPacket| p@) == old(self)@.unhandled,
            final(self).wf() == old(self).wf(),
            final(self)@ == (MqttClientV {
                unhandled: final(r)@.map_values(|p: MqttPacket| p@),
                ..old(self)@
            }),
    {
        &mut self.context.unhandled_packets
    }

    /// The packets that arrived while the client waited for another.
    pub fn peek_unhandled_packets(&self) -> (r: &Vec<MqttPacket>)
        ensures
            r@.map_values(|p: MqttPacket| p@) == self@.unhandled,
    {
        &self.context.unhandled_packets
    }

    /// Takes the oldest packet that arrived while the client waited.
    pub fn pop_unhandled_packet(&mut self) -> (r: Option<MqttPacket>)
        ensures
            final(self).wf() == old(self).wf(),
            old(self)@.unhandled.len() == 0 ==> r is None && final(self)@ == old(self)@,
            old(self)@.unhandled.len() > 0 ==> (r matches Some(p) && p@ == old(self)@.unhandled[0]),
            old(self)@.unhandled.len() > 0 ==> final(self)@ == (MqttClientV {
                unhandled: old(self)@.unhandled.drop_first(),
                ..old(self)@
            }),
    {
        if self.context.unhandled_packets.len() > 0 {
            let p = self.context.unhandled_packets.remove(0);
            assert(self@.unhandled =~= old(self)@.unhandled.drop_first());
            Some(p)
        } else {
            None
        }
    }

    /// Forgets the packets that arrived while the client waited.
    pub fn clear_unhandled_packets(&mut self)
        ensures
            final(self).wf() == old(self).wf(),
            final(self)@ == (MqttClientV { unhandled: seq![], ..old(self)@ }),
    {
        self.context.unhandled_packets.clear();
        assert(self@.unhandled =~= seq![]);
    }

    /// Keeps a packet that arrived while the client waited for another.
    pub fn file_unhandled(&mut self, p: MqttPacket)
        ensures
            final(self).wf() == old(self).wf(),
            final(self)@ == (MqttClientV { unhandled: old(self)@.unhandled.push(p@), ..old(self)@ }),
    {
        self.context.unhandled_packets.push(p);
        assert(self@.unhandled =~= old(self)@.unhandled.push(p@));
    }

    /// The SUBSCRIBEs sent without waiting, by packet identifier.
    pub fn get_pending_subscribes(&self) -> (r: &HashMap<u16, String>)
        ensures
            r@.map_values(|t: String| t@) == self@.pending_subscribes,
    {
        &self.context.pending_subscribes
    }

    /// The UNSUBSCRIBEs sent without waiting, by packet identifier.
    pub fn get_pending_unsubscribes(&self) -> (r: &HashMap<u16, Vec<String>>)
        ensures
            r@.map_values(|v: Vec<String>| string_views(v@)) == self@.pending_unsubscribes,
    {
        &self.context.pending_unsubscribes
    }

    /// The PUBLISHes sent without waiting, by packet identifier.
    pub fn get_pending_publishes(&self) -> (r: &HashMap<u16, (String, u8)>)
        ensures
            r@.map_values(|e: (String, u8)| (e.0@, e.1)) == self@.pending_publishes,
    {
        &self.context.pending_publishes
    }

    /// Marks a SUBSCRIBE as answered; gives back its topic if it was pending.
    pub fn complete_subscribe(&mut self, packet_id: u16) -> (r: Option<String>)
        ensures
            final(self).wf() == old(self).wf(),
            match r {
                Some(t) => old(self)@.pending_subscribes.contains_key(packet_id)
                    && t@ == old(self)@.pending_subscribes[packet_id],
                None => !old(self)@.pending_subscribes.contains_key(packet_id),
            },
            final(self)@ == (MqttClientV {
                pending_subscribes: old(self)@.pending_subscribes.remove(packet_id),
                ..old(self)@
            }),
    {
        let r = self.context.pending_subscribes.remove(&packet_id);
        assert(self@.pending_subscribes =~= old(self)@.pending_subscribes.remove(packet_id));
        r
    }

    /// Marks an UNSUBSCRIBE as answered; gives back its topics if it was
    /// pending.
    pub fn complete_unsubscribe(&mut self, packet_id: u16) -> (r: Option<Vec<String>>)
        ensures
            final(self).wf() == old(self).wf(),
            match r {
                Some(v) => old(self)@.pending_unsubscribes.contains_key(packet_id)
                    && string_views(v@) == old(self)@.pending_unsubscribes[packet_id],
                None => !old(self)@.pending_unsubscribes.contains_key(packet_id),
            },
            final(self)@ == (MqttClientV {
                pending_unsubscribes: old(self)@.pending_unsubscribes.remove(packet_id),
                ..old(self)@
            }),
    {
        let r = self.context.pending_unsubscribes.remove(&packet_id);
        assert(self@.pending_unsubscribes =~= old(self)@.pending_unsubscribes.remove(packet_id));
        r
    }

    /// Marks a PUBLISH as acknowledged; gives back its topic and QoS if it
    /// was pending.
    pub fn complete_publish(&mut self, packet_id: u16) -> (r: Option<(String, u8)>)
        ensures
            final(self).wf() == old(self).wf(),
            match r {
                Some(e) => old(self)@.pending_publishes.contains_key(packet_id)
                    && (e.0@, e.1) == old(self)@.pending_publishes[packet_id],
                None => !old(self)@.pending_publishes.contains_key(packet_id),
            },
            final(self)@ == (MqttClientV {
                pending_publishes: old(self)@.pending_publishes.remove(packet_id),
                ..old(self)@
            }),
    {
        let r = self.context.pending_publishes.remove(&packet_id);
        assert(self@.pending_publishes =~= old(self)@.pending_publishes.remove(packet_id));
        r
    }

    /// Gets ready to connect: a sessionless client drops its session and
    /// asks for a clean start; any other client opens a session if it has
    /// none. Returns the CONNECT to send, built from the options, with no
    /// properties.
    pub fn prepare_connect(&mut self) -> (r: MqttPacket)
        requires
            old(self).wf(),
        ensures
            final(self).wf(),
            final(self)@ == (MqttClientV {
                options: MqttClientOptions {
                    clean_start: old(self)@.options.clean_start || old(self)@.options.sessionless,
                    ..old(self)@.options
                },
                next_id: if old(self)@.options.sessionless {
                    None
                } else if old(self)@.next_id is None {
                    Some(1u16)
                } else {
                    old(self)@.next_id
                },
                ..old(self)@
            }),
            r@ == connect_view(old(self)@.options, final(self)@.options.clean_start),
    {
        if self.options.sessionless {
            self.context.session = None;
            self.options.clean_start = true;
        } else if self.context.session.is_none() {
            self.context.session = Some(ClientSession::new());
        }
        let o = &self.options;
        let packet = MqttPacket::Connect(MqttConnect {
            client_id: o.client_id.clone(),
            username: match &o.username {
                Some(u) => Some(u.clone()),
                None => None,
            },
            password: match &o.password {
                Some(pw) => Some(copy_bytes(pw)),
                None => None,
            },
            will: match &o.will {
                Some(w) => Some(copy_will(w)),
                None => None,
            },
            keep_alive: o.keep_alive,
            clean_start: o.clean_start,
            properties: Vec::new(),
        });
        assert(views(Seq::<Property>::empty()) =~= seq![]);
        packet
    }

    /// Takes the reply to CONNECT. A CONNACK records whether the broker has
    /// a stored session; a successful CONNACK without one also forgets every
    /// pending operation. Any other packet is not the reply (`None`).
    pub fn handle_connack(&mut self, packet: MqttPacket) -> (r: Option<ConnectionResult>)
        ensures
            final(self).wf() == old(self).wf(),
            match packet {
                MqttPacket::ConnAck(c) => {
                    &&& r == Some(ConnectionResult {
                        reason_code: c.reason_code,
                        session_present: c.session_present,
                        properties: Some(c.properties),
                    })
                    &&& final(self)@ == if c.reason_code == 0 && !c.session_present {
                        MqttClientV {
                            session_present: false,
                            pending_subscribes: Map::empty(),
                            pending_unsubscribes: Map::empty(),
                            pending_publishes: Map::empty(),
                            ..old(self)@
                        }
                    } else {
                        MqttClientV { session_present: c.session_present, ..old(self)@ }
                    }
                },
                _ => r is None && final(self)@ == old(self)@,
            },
    {
        match packet {
            MqttPacket::ConnAck(c) => {
                self.context.session_present = c.session_present;
                if c.reason_code == 0 && !c.session_present {
                    self.clear_pending_operations();
                }
                Some(ConnectionResult {
                    reason_code: c.reason_code,
                    session_present: c.session_present,
                    properties: Some(c.properties),
                })
            },
            _ => None,
        }
    }

    /// The SUBSCRIBE for one topic, with a fresh packet identifier from the
    /// session; `None` when there is no session.
    pub fn prepare_subscribe(&mut self, topic: &str, qos: u8) -> (r: Option<(u16, MqttPacket)>)
        requires
            old(self).wf(),
        ensures
            final(self).wf(),
            match old(self)@.next_id {
                None => r is None && final(self)@ == old(self)@,
                Some(id) => {
                    &&& r matches Some((i, p)) && i == id && p@ == subscribe_view(id, topic@, qos)
                    &&& final(self)@ == (MqttClientV { next_id: Some(following_id(id)), ..old(self)@ })
                },
            },
    {
        match &mut self.context.session {
            Some(session) => {
                let packet_id = session.next_packet_id();
                let subscription = TopicSubscription {
                    topic_filter: topic.to_owned(),
                    qos,
                    no_local: false,
                    retain_as_published: false,
                    retain_handling: 0,
                };
                let ghost sv = subscription@;
                let mut subscriptions: Vec<TopicSubscription> = Vec::new();
                subscriptions.push(subscription);
                assert(subscriptions@.map_values(|t: TopicSubscription| t@) =~= seq![sv]);
                let packet = MqttPacket::Subscribe(MqttSubscribe {
                    packet_id,
                    subscriptions,
                    properties: Vec::new(),
                });
                assert(views(Seq::<Property>::empty()) =~= seq![]);
                assert(packet@ == subscribe_view(packet_id, topic@, qos));
                Some((packet_id, packet))
            },
            None => None,
        }
    }

    /// The UNSUBSCRIBE for `topics`, with a fresh packet identifier from the
    /// session; `None` when there is no session.
    pub fn prepare_unsubscribe(&mut self, topics: Vec<String>) -> (r: Option<(u16, MqttPacket)>)
        requires
            old(self).wf(),
        ensures
            final(self).wf(),
            match old(self)@.next_id {
                None => r is None && final(self)@ == old(self)@,
                Some(id) => {
                    &&& r matches Some((i, p)) && i == id && p@ == PacketV::Unsubscribe(UnsubscribeV {
                        packet_id: id,
                        topics: string_views(topics@),
                        properties: seq![],
                    })
                    &&& final(self)@ == (MqttClientV { next_id: Some(following_id(id)), ..old(self)@ })
                },
            },
    {
        match &mut self.context.session {
            Some(session) => {
                let packet_id = session.next_packet_id();
                let packet = MqttPacket::Unsubscribe(MqttUnsubscribe { packet_id, topics, properties: Vec::new() });
                assert(views(Seq::<Property>::empty()) =~= seq![]);
                Some((packet_id, packet))
            },
            None => None,
        }
    }

    /// The PUBLISH of `payload` on `topic`; QoS 1 and 2 take a fresh packet
    /// identifier from the session. `None` when there is no session.
    pub fn prepare_publish(&mut self, topic: &str, payload: &[u8], qos: u8, retain: bool) -> (r: Option<
        (Option<u16>, MqttPacket),
    >)
        requires
            old(self).wf(),
        ensures
            final(self).wf(),
            match old(self)@.next_id {
                None => r is None && final(self)@ == old(self)@,
                Some(id) => {
                    let pid = if qos > 0 { Some(id) } else { None::<u16> };
                    &&& r matches Some((i, p)) && i == pid && p@ == PacketV::Publish(PublishV {
                        qos,
                        topic_name: topic@,
                        packet_id: pid,
                        payload: payload@,
                        retain,
                        dup: false,
                        properties: seq![],
                    })
                    &&& final(self)@ == (MqttClientV {
                        next_id: Some(if qos > 0 { following_id(id) } else { id }),
                        ..old(self)@
                    })
                },
            },
    {
        match &mut self.context.session {
            Some(session) => {
                let packet_id = if qos > 0 {
                    Some(session.next_packet_id())
                } else {
                    None
                };
                let packet = MqttPacket::Publish(MqttPublish {
                    qos,
                    topic_name: topic.to_owned(),
                    packet_id,
                    payload: vstd::slice::slice_to_vec(payload),
                    retain,
                    dup: false,
                    properties: Vec::new(),
                });
                assert(views(Seq::<Property>::empty()) =~= seq![]);
                Some((packet_id, packet))
            },
            None => None,
        }
    }

    /// Records a SUBSCRIBE that was sent without waiting for its SUBACK.
    pub fn track_subscribe(&mut self, packet_id: u16, topic: &str)
        ensures
            final(self).wf() == old(self).wf(),
            final(self)@ == (MqttClientV {
                pending_subscribes: old(self)@.pending_subscribes.insert(packet_id, topic@),
                ..old(self)@
            }),
    {
        self.context.pending_subscribes.insert(packet_id, topic.to_owned());
        assert(self@.pending_subscribes =~= old(self)@.pending_subscribes.insert(packet_id, topic@));
    }

    /// Records an UNSUBSCRIBE that was sent without waiting for its UNSUBACK.
    pub fn track_unsubscribe(&mut self, packet_id: u16, topics: &Vec<String>)
        ensures
            final(self).wf() == old(self).wf(),
            final(self)@ == (MqttClientV {
                pending_unsubscribes: old(self)@.pending_unsubscribes.insert(packet_id, string_views(topics@)),
                ..old(self)@
            }),
    {
        self.context.pending_unsubscribes.insert(packet_id, copy_strings(topics));
        assert(self@.pending_unsubscribes =~= old(self)@.pending_unsubscribes.insert(
            packet_id,
            string_views(topics@),
        ));
    }

    /// Records a QoS 1 or 2 PUBLISH that was sent without waiting for its
    /// acknowledgement.
    pub fn track_publish(&mut self, packet_id: u16, topic: &str, qos: u8)
        ensures
            final(self).wf() == old(self).wf(),
            final(self)@ == (MqttClientV {
                pending_publishes: old(self)@.pending_publishes.insert(packet_id, (topic@, qos)),
                ..old(self)@
            }),
    {
        self.context.pending_publishes.insert(packet_id, (topic.to_owned(), qos));
        assert(self@.pending_publishes =~= old(self)@.pending_publishes.insert(packet_id, (topic@, qos)));
    }

    /// Forgets every pending operation.
    pub fn clear_pending_operations(&mut self)
        ensures
            final(self).wf() == old(self).wf(),
            final(self)@ == (MqttClientV {
                pending_subscribes: Map::empty(),
                pending_unsubscribes: Map::empty(),
                pending_publishes: Map::empty(),
                ..old(self)@
            }),
    {
        self.context.pending_subscribes.clear();
        self.context.pending_unsubscribes.clear();
        self.context.pending_publishes.clear();
        assert(self@.pending_subscribes =~= Map::empty());
        assert(self@.pending_unsubscribes =~= Map::empty());
        assert(self@.pending_publishes =~= Map::empty());
    }
}

/// Completing an operation that was tracked gives back what was tracked,
/// and leaves the other pending operations as they were before it was
/// tracked.
pub proof fn law_track_then_complete<V>(pending: Map<u16, V>, packet_id: u16, entry: V)
    ensures
        pending.insert(packet_id, entry).contains_key(packet_id),
        pending.insert(packet_id, entry)[packet_id] == entry,
        pending.insert(packet_id, entry).remove(packet_id) == pending.remove(packet_id),
{
    assert(pending.insert(packet_id, entry).remove(packet_id) =~= pending.remove(packet_id));
}

/// Each awaited reply is recognised by its own acknowledgement: the
/// acknowledgement of the awaited kind answers exactly when it carries the
/// awaited identifier, and any PINGRESP answers a ping.
pub proof fn law_each_reply_recognised(x: AckV, s: SubAckV, id: u16)
    ensures
        answers(PacketV::PubAck(x), Awaited::PubAck(id)) <==> x.packet_id == id,
        answers(PacketV::PubRec(x), Awaited::PubRec(id)) <==> x.packet_id == id,
        answers(PacketV::PubComp(x), Awaited::PubComp(id)) <==> x.packet_id == id,
        answers(PacketV::SubAck(s), Awaited::SubAck(id)) <==> s.packet_id == id,
        answers(PacketV::UnsubAck(s), Awaited::UnsubAck(id)) <==> s.packet_id == id,
        answers(PacketV::PingResp, Awaited::PingResp),
{
}

/// A packet answers only a wait for its own kind.
pub proof fn law_reply_of_own_kind(p: PacketV, a: Awaited)
    requires
        answers(p, a),
    ensures
        a is PubAck ==> p is PubAck,
        a is PubRec ==> p is PubRec,
        a is PubComp ==> p is PubComp,
        a is SubAck ==> p is SubAck,
        a is UnsubAck ==> p is UnsubAck,
        a is PingResp ==> p is PingResp,
{
}

/// The CONNECT of the blocking client carries the options: client id, user
/// name, password, will and keep-alive as the options give them, the
/// clean-start flag as asked, and no properties.
pub proof fn law_blocking_connect_carries_options(o: MqttClientOptions, clean_start: bool)
    ensures
        connect_view(o, clean_start) matches PacketV::Connect(c) && c.client_id == o.client_id@ && c.keep_alive
            == o.keep_alive && c.clean_start == clean_start && c.properties.len() == 0,
        o.username matches Some(u) ==> (connect_view(o, clean_start) matches PacketV::Connect(c) && c.username == Some(u@)),
        o.username is None ==> (connect_view(o, clean_start) matches PacketV::Connect(c) && c.username is None),
        o.password matches Some(pw) ==> (connect_view(o, clean_start) matches PacketV::Connect(c) && c.password == Some(pw@)),
        o.password is None ==> (connect_view(o, clean_start) matches PacketV::Connect(c) && c.password is None),
        o.will matches Some(w) ==> (connect_view(o, clean_start) matches PacketV::Connect(c) && c.will == Some(w@)),
        o.will is None ==> (connect_view(o, clean_start) matches PacketV::Connect(c) && c.will is None),
{
}

/// The SUBSCRIBE of the blocking client names the one topic at the QoS
/// asked, under the identifier given, with default options.
pub proof fn law_blocking_subscribe_request(id: u16, topic: Seq<char>, qos: u8)
    ensures
        subscribe_view(id, topic, qos) matches PacketV::Subscribe(x) && x.packet_id == id && x.subscriptions.len() == 1
            && x.subscriptions[0].topic_filter == topic && x.subscriptions[0].qos == qos && !x.subscriptions[0].no_local
            && !x.subscriptions[0].retain_as_published && x.subscriptions[0].retain_handling == 0,
{
}

} // verus!
