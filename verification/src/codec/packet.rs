//! MQTT control packets (3.1.1 and 5.0) and their encoding.

use vstd::prelude::*;
use crate::codec::wire::{
    be16, bin_field, copy_bytes, bin_ok, put_bin, put_bytes, put_str, put_u16, put_vbi, str_field, str_ok, vbi, VBI_MAX,
};
use crate::codec::property::{copy_properties, props_field, props_ok, put_properties, views, Property, PropertyV};

verus! {

/// A PUBLISH packet.
#[derive(Debug, Clone, PartialEq)]
pub struct MqttPublish {
    pub qos: u8,
    pub topic_name: String,
    pub packet_id: Option<u16>,
    pub payload: Vec<u8>,
    pub retain: bool,
    pub dup: bool,
    pub properties: Vec<Property>,
}

/// PUBACK, PUBREC, PUBREL and PUBCOMP: an acknowledgement of one packet identifier.
#[derive(Debug, Clone, PartialEq)]
pub struct MqttAck {
    pub packet_id: u16,
    pub reason_code: u8,
    pub properties: Vec<Property>,
}

/// A CONNACK packet.
#[derive(Debug, Clone, PartialEq)]
pub struct MqttConnAck {
    pub session_present: bool,
    pub reason_code: u8,
    pub properties: Vec<Property>,
}

/// SUBACK and UNSUBACK: one reason code per filter of the request.
#[derive(Debug, Clone, PartialEq)]
pub struct MqttSubAck {
    pub packet_id: u16,
    pub reason_codes: Vec<u8>,
    pub properties: Vec<Property>,
}

/// One topic filter of a SUBSCRIBE packet with its options.
#[derive(Debug, Clone, PartialEq)]
pub struct TopicSubscription {
    pub topic_filter: String,
    pub qos: u8,
    pub no_local: bool,
    pub retain_as_published: bool,
    pub retain_handling: u8,
}

/// A SUBSCRIBE packet.
#[derive(Debug, Clone, PartialEq)]
pub struct MqttSubscribe {
    pub packet_id: u16,
    pub subscriptions: Vec<TopicSubscription>,
    pub properties: Vec<Property>,
}

/// An UNSUBSCRIBE packet.
#[derive(Debug, Clone, PartialEq)]
pub struct MqttUnsubscribe {
    pub packet_id: u16,
    pub topics: Vec<String>,
    pub properties: Vec<Property>,
}

/// The Last Will and Testament carried by CONNECT.
#[derive(Debug, Clone, PartialEq)]
pub struct Will {
    pub topic: String,
    pub payload: Vec<u8>,
    pub qos: u8,
    pub retain: bool,
    pub properties: Vec<Property>,
}

/// A CONNECT packet.
#[derive(Debug, Clone, PartialEq)]
pub struct MqttConnect {
    pub client_id: String,
    pub username: Option<String>,
    pub password: Option<Vec<u8>>,
    pub will: Option<Will>,
    pub keep_alive: u16,
    pub clean_start: bool,
    pub properties: Vec<Property>,
}

/// DISCONNECT and AUTH: a reason code and properties.
#[derive(Debug, Clone, PartialEq)]
pub struct MqttReason {
    pub reason_code: u8,
    pub properties: Vec<Property>,
}

/// An MQTT control packet.
#[derive(Debug, Clone, PartialEq)]
pub enum MqttPacket {
    Connect(MqttConnect),
    ConnAck(MqttConnAck),
    Publish(MqttPublish),
    PubAck(MqttAck),
    PubRec(MqttAck),
    PubRel(MqttAck),
    PubComp(MqttAck),
    Subscribe(MqttSubscribe),
    SubAck(MqttSubAck),
    Unsubscribe(MqttUnsubscribe),
    UnsubAck(MqttSubAck),
    PingReq,
    PingResp,
    Disconnect(MqttReason),
    Auth(MqttReason),
}

pub struct PublishV {
    pub qos: u8,
    pub topic_name: Seq<char>,
    pub packet_id: Option<u16>,
    pub payload: Seq<u8>,
    pub retain: bool,
    pub dup: bool,
    pub properties: Seq<PropertyV>,
}

pub struct AckV {
    pub packet_id: u16,
    pub reason_code: u8,
    pub properties: Seq<PropertyV>,
}

pub struct ConnAckV {
    pub session_present: bool,
    pub reason_code: u8,
    pub properties: Seq<PropertyV>,
}

pub struct SubAckV {
    pub packet_id: u16,
    pub reason_codes: Seq<u8>,
    pub properties: Seq<PropertyV>,
}

pub struct TopicSubscriptionV {
    pub topic_filter: Seq<char>,
    pub qos: u8,
    pub no_local: bool,
    pub retain_as_published: bool,
    pub retain_handling: u8,
}

pub struct SubscribeV {
    pub packet_id: u16,
    pub subscriptions: Seq<TopicSubscriptionV>,
    pub properties: Seq<PropertyV>,
}

pub struct UnsubscribeV {
    pub packet_id: u16,
    pub topics: Seq<Seq<char>>,
    pub properties: Seq<PropertyV>,
}

pub struct WillV {
    pub topic: Seq<char>,
    pub payload: Seq<u8>,
    pub qos: u8,
    pub retain: bool,
    pub properties: Seq<PropertyV>,
}

pub struct ConnectV {
    pub client_id: Seq<char>,
    pub username: Option<Seq<char>>,
    pub password: Option<Seq<u8>>,
    pub will: Option<WillV>,
    pub keep_alive: u16,
    pub clean_start: bool,
    pub properties: Seq<PropertyV>,
}

pub struct ReasonV {
    pub reason_code: u8,
    pub properties: Seq<PropertyV>,
}

/// The abstract view of a control packet.
pub enum PacketV {
    Connect(ConnectV),
    ConnAck(ConnAckV),
    Publish(PublishV),
    PubAck(AckV),
    PubRec(AckV),
    PubRel(AckV),
    PubComp(AckV),
    Subscribe(SubscribeV),
    SubAck(SubAckV),
    Unsubscribe(UnsubscribeV),
    UnsubAck(SubAckV),
    PingReq,
    PingResp,
    Disconnect(ReasonV),
    Auth(ReasonV),
}

impl View for MqttPublish {
    type V = PublishV;

    open spec fn view(&self) -> PublishV {
        PublishV {
            qos: self.qos,
            topic_name: self.topic_name@,
            packet_id: self.packet_id,
            payload: self.payload@,
            retain: self.retain,
            dup: self.dup,
            properties: views(self.properties@),
        }
    }
}

impl View for MqttAck {
    type V = AckV;

    open spec fn view(&self) -> AckV {
        AckV { packet_id: self.packet_id, reason_code: self.reason_code, properties: views(self.properties@) }
    }
}

impl View for MqttConnAck {
    type V = ConnAckV;

    open spec fn view(&self) -> ConnAckV {
        ConnAckV {
            session_present: self.session_present,
            reason_code: self.reason_code,
            properties: views(self.properties@),
        }
    }
}

impl View for MqttSubAck {
    type V = SubAckV;

    open spec fn view(&self) -> SubAckV {
        SubAckV {
            packet_id: self.packet_id,
            reason_codes: self.reason_codes@,
            properties: views(self.properties@),
        }
    }
}

impl View for TopicSubscription {
    type V = TopicSubscriptionV;

    open spec fn view(&self) -> TopicSubscriptionV {
        TopicSubscriptionV {
            topic_filter: self.topic_filter@,
            qos: self.qos,
            no_local: self.no_local,
            retain_as_published: self.retain_as_published,
            retain_handling: self.retain_handling,
        }
    }
}

impl View for MqttSubscribe {
    type V = SubscribeV;

    open spec fn view(&self) -> SubscribeV {
        SubscribeV {
            packet_id: self.packet_id,
            subscriptions: self.subscriptions@.map_values(|s: TopicSubscription| s@),
            properties: views(self.properties@),
        }
    }
}

impl View for MqttUnsubscribe {
    type V = UnsubscribeV;

    open spec fn view(&self) -> UnsubscribeV {
        UnsubscribeV {
            packet_id: self.packet_id,
            topics: self.topics@.map_values(|t: String| t@),
            properties: views(self.properties@),
        }
    }
}

impl View for Will {
    type V = WillV;

    open spec fn view(&self) -> WillV {
        WillV {
            topic: self.topic@,
            payload: self.payload@,
            qos: self.qos,
            retain: self.retain,
            properties: views(self.properties@),
        }
    }
}

impl View for MqttConnect {
    type V = ConnectV;

    open spec fn view(&self) -> ConnectV {
        ConnectV {
            client_id: self.client_id@,
            username: match &self.username {
                Some(u) => Some(u@),
                None => None,
            },
            password: match &self.password {
                Some(p) => Some(p@),
                None => None,
            },
            will: match &self.will {
                Some(w) => Some(w@),
                None => None,
            },
            keep_alive: self.keep_alive,
            clean_start: self.clean_start,
            properties: views(self.properties@),
        }
    }
}

impl View for MqttReason {
    type V = ReasonV;

    open spec fn view(&self) -> ReasonV {
        ReasonV { reason_code: self.reason_code, properties: views(self.properties@) }
    }
}

impl View for MqttPacket {
    type V = PacketV;

    open spec fn view(&self) -> PacketV {
        match self {
            MqttPacket::Connect(p) => PacketV::Connect(p@),
            MqttPacket::ConnAck(p) => PacketV::ConnAck(p@),
            MqttPacket::Publish(p) => PacketV::Publish(p@),
            MqttPacket::PubAck(p) => PacketV::PubAck(p@),
            MqttPacket::PubRec(p) => PacketV::PubRec(p@),
            MqttPacket::PubRel(p) => PacketV::PubRel(p@),
            MqttPacket::PubComp(p) => PacketV::PubComp(p@),
            MqttPacket::Subscribe(p) => PacketV::Subscribe(p@),
            MqttPacket::SubAck(p) => PacketV::SubAck(p@),
            MqttPacket::Unsubscribe(p) => PacketV::Unsubscribe(p@),
            MqttPacket::UnsubAck(p) => PacketV::UnsubAck(p@),
            MqttPacket::PingReq => PacketV::PingReq,
            MqttPacket::PingResp => PacketV::PingResp,
            MqttPacket::Disconnect(p) => PacketV::Disconnect(p@),
            MqttPacket::Auth(p) => PacketV::Auth(p@),
        }
    }
}

/// The property-list field of a packet: present only in MQTT 5.
pub open spec fn props_if_v5(ps: Seq<PropertyV>, version: u8) -> Seq<u8> {
    if version == 5 { props_field(ps) } else { seq![] }
}

/// A packet identifier field: present only when the QoS is above 0.
pub open spec fn id_if_qos(qos: u8, id: Option<u16>) -> Seq<u8> {
    if qos > 0 && id is Some { be16(id->0) } else { seq![] }
}

pub open spec fn publish_body(p: PublishV, version: u8) -> Seq<u8> {
    str_field(p.topic_name) + id_if_qos(p.qos, p.packet_id) + props_if_v5(p.properties, version) + p.payload
}

/// The shortest of the encodings that MQTT 5 allows for a reason code and
/// properties that may be left out when they are 0 and empty.
pub open spec fn reason_tail(reason_code: u8, props: Seq<PropertyV>) -> Seq<u8> {
    if props.len() == 0 {
        if reason_code == 0 { seq![] } else { seq![reason_code] }
    } else {
        seq![reason_code] + props_field(props)
    }
}

pub open spec fn ack_body(a: AckV, version: u8) -> Seq<u8> {
    be16(a.packet_id) + if version == 5 { reason_tail(a.reason_code, a.properties) } else { seq![] }
}

pub open spec fn connack_body(c: ConnAckV, version: u8) -> Seq<u8> {
    seq![if c.session_present { 1u8 } else { 0u8 }, c.reason_code] + props_if_v5(c.properties, version)
}

pub open spec fn suback_body(s: SubAckV, version: u8) -> Seq<u8> {
    be16(s.packet_id) + props_if_v5(s.properties, version) + s.reason_codes
}

pub open spec fn unsuback_body(s: SubAckV, version: u8) -> Seq<u8> {
    if version == 5 { suback_body(s, version) } else { be16(s.packet_id) }
}

/// The subscription options byte.
pub open spec fn sub_options(s: TopicSubscriptionV, version: u8) -> u8 {
    if version == 5 {
        (s.qos + (if s.no_local { 4int } else { 0int }) + (if s.retain_as_published { 8int } else { 0int })
            + s.retain_handling * 16) as u8
    } else {
        s.qos
    }
}

pub open spec fn subs_bytes(ss: Seq<TopicSubscriptionV>, version: u8) -> Seq<u8>
    decreases ss.len(),
{
    if ss.len() == 0 {
        seq![]
    } else {
        subs_bytes(ss.drop_last(), version) + str_field(ss.last().topic_filter) + seq![sub_options(ss.last(), version)]
    }
}

pub open spec fn subscribe_body(s: SubscribeV, version: u8) -> Seq<u8> {
    be16(s.packet_id) + props_if_v5(s.properties, version) + subs_bytes(s.subscriptions, version)
}

pub open spec fn topics_bytes(ts: Seq<Seq<char>>) -> Seq<u8>
    decreases ts.len(),
{
    if ts.len() == 0 {
        seq![]
    } else {
        topics_bytes(ts.drop_last()) + str_field(ts.last())
    }
}

pub open spec fn unsubscribe_body(u: UnsubscribeV, version: u8) -> Seq<u8> {
    be16(u.packet_id) + props_if_v5(u.properties, version) + topics_bytes(u.topics)
}

pub open spec fn reason_body(r: ReasonV, version: u8) -> Seq<u8> {
    if version == 5 { reason_tail(r.reason_code, r.properties) } else { seq![] }
}

/// The CONNECT flags byte.
pub open spec fn connect_flags(c: ConnectV) -> u8 {
    ((if c.username is Some { 128int } else { 0int }) + (if c.password is Some { 64int } else { 0int })
        + (if c.will is Some && c.will->0.retain { 32int } else { 0int })
        + (if c.will is Some { c.will->0.qos * 8 } else { 0int })
        + (if c.will is Some { 4int } else { 0int }) + (if c.clean_start { 2int } else { 0int })) as u8
}

pub open spec fn will_bytes(w: Option<WillV>, version: u8) -> Seq<u8> {
    match w {
        Some(w) => props_if_v5(w.properties, version) + str_field(w.topic) + bin_field(w.payload),
        None => seq![],
    }
}

/// "MQTT" as a UTF-8 string field.
pub open spec fn protocol_name() -> Seq<u8> {
    seq![0u8, 4u8, 0x4Du8, 0x51u8, 0x54u8, 0x54u8]
}

pub open spec fn connect_header(c: ConnectV, version: u8) -> Seq<u8> {
    protocol_name() + seq![if version == 5 { 5u8 } else { 4u8 }, connect_flags(c)] + be16(c.keep_alive)
}

pub open spec fn credentials_bytes(c: ConnectV) -> Seq<u8> {
    (match c.username { Some(u) => str_field(u), None => seq![] })
        + (match c.password { Some(p) => bin_field(p), None => seq![] })
}

pub open spec fn will_ok(w: Option<WillV>, version: u8) -> bool {
    w matches Some(w) ==> str_ok(w.topic) && bin_ok(w.payload) && w.qos <= 2 && v5_props_ok(w.properties, version)
}

pub open spec fn credentials_ok(c: ConnectV) -> bool {
    (c.username matches Some(u) ==> str_ok(u)) && (c.password matches Some(pw) ==> bin_ok(pw))
}

pub open spec fn connect_body(c: ConnectV, version: u8) -> Seq<u8> {
    connect_header(c, version) + props_if_v5(c.properties, version) + str_field(c.client_id)
        + will_bytes(c.will, version) + credentials_bytes(c)
}

/// The variable header and payload of a packet.
pub open spec fn packet_body(p: PacketV, version: u8) -> Seq<u8> {
    match p {
        PacketV::Connect(c) => connect_body(c, version),
        PacketV::ConnAck(c) => connack_body(c, version),
        PacketV::Publish(x) => publish_body(x, version),
        PacketV::PubAck(a) => ack_body(a, version),
        PacketV::PubRec(a) => ack_body(a, version),
        PacketV::PubRel(a) => ack_body(a, version),
        PacketV::PubComp(a) => ack_body(a, version),
        PacketV::Subscribe(s) => subscribe_body(s, version),
        PacketV::SubAck(s) => suback_body(s, version),
        PacketV::Unsubscribe(u) => unsubscribe_body(u, version),
        PacketV::UnsubAck(s) => unsuback_body(s, version),
        PacketV::PingReq => seq![],
        PacketV::PingResp => seq![],
        PacketV::Disconnect(r) => reason_body(r, version),
        PacketV::Auth(r) => reason_body(r, version),
    }
}

/// The first byte of the fixed header: packet type and flags.
pub open spec fn first_byte(p: PacketV) -> u8 {
    match p {
        PacketV::Connect(_) => 0x10,
        PacketV::ConnAck(_) => 0x20,
        PacketV::Publish(x) => (0x30 + (if x.dup { 8int } else { 0int }) + x.qos * 2 + (if x.retain { 1int } else { 0int })) as u8,
        PacketV::PubAck(_) => 0x40,
        PacketV::PubRec(_) => 0x50,
        PacketV::PubRel(_) => 0x62,
        PacketV::PubComp(_) => 0x70,
        PacketV::Subscribe(_) => 0x82,
        PacketV::SubAck(_) => 0x90,
        PacketV::Unsubscribe(_) => 0xA2,
        PacketV::UnsubAck(_) => 0xB0,
        PacketV::PingReq => 0xC0,
        PacketV::PingResp => 0xD0,
        PacketV::Disconnect(_) => 0xE0,
        PacketV::Auth(_) => 0xF0,
    }
}

/// The complete encoding of a packet.
pub open spec fn packet_bytes(p: PacketV, version: u8) -> Seq<u8> {
    seq![first_byte(p)] + vbi(packet_body(p, version).len() as u32) + packet_body(p, version)
}

/// Whether every property list in the packet that its version carries can be encoded.
pub open spec fn v5_props_ok(ps: Seq<PropertyV>, version: u8) -> bool {
    version == 5 ==> props_ok(ps)
}

pub open spec fn subs_ok(ss: Seq<TopicSubscriptionV>) -> bool {
    forall|i: int| 0 <= i < ss.len() ==> str_ok(#[trigger] ss[i].topic_filter) && ss[i].qos <= 2
        && ss[i].retain_handling <= 2
}

pub open spec fn topics_ok(ts: Seq<Seq<char>>) -> bool {
    forall|i: int| 0 <= i < ts.len() ==> str_ok(#[trigger] ts[i])
}

/// Whether the fields of a packet fit their encodings in the given version.
pub open spec fn fields_ok(p: PacketV, version: u8) -> bool {
    match p {
        PacketV::Connect(c) => str_ok(c.client_id) && v5_props_ok(c.properties, version) && credentials_ok(c)
            && will_ok(c.will, version),
        PacketV::ConnAck(c) => v5_props_ok(c.properties, version),
        PacketV::Publish(x) => str_ok(x.topic_name) && x.qos <= 2 && (x.qos > 0 ==> x.packet_id is Some)
            && v5_props_ok(x.properties, version),
        PacketV::PubAck(a) => v5_props_ok(a.properties, version),
        PacketV::PubRec(a) => v5_props_ok(a.properties, version),
        PacketV::PubRel(a) => v5_props_ok(a.properties, version),
        PacketV::PubComp(a) => v5_props_ok(a.properties, version),
        PacketV::Subscribe(s) => v5_props_ok(s.properties, version) && subs_ok(s.subscriptions),
        PacketV::SubAck(s) => v5_props_ok(s.properties, version),
        PacketV::Unsubscribe(u) => v5_props_ok(u.properties, version) && topics_ok(u.topics),
        PacketV::UnsubAck(s) => v5_props_ok(s.properties, version),
        PacketV::PingReq => true,
        PacketV::PingResp => true,
        PacketV::Disconnect(r) => v5_props_ok(r.properties, version),
        PacketV::Auth(r) => version == 5 && props_ok(r.properties),
    }
}

/// Whether a packet can be encoded: its fields fit, and the whole body fits
/// the Remaining Length.
pub open spec fn packet_ok(p: PacketV, version: u8) -> bool {
    fields_ok(p, version) && packet_body(p, version).len() <= VBI_MAX
}

fn put_props_if_v5(out: &mut Vec<u8>, ps: &Vec<Property>, version: u8) -> (ok: bool)
    ensures
        ok == v5_props_ok(views(ps@), version),
        ok ==> final(out)@ == old(out)@ + props_if_v5(views(ps@), version),
{
    if version == 5 {
        put_properties(out, ps)
    } else {
        true
    }
}

fn put_reason_tail(out: &mut Vec<u8>, reason_code: u8, ps: &Vec<Property>) -> (ok: bool)
    ensures
        ok == props_ok(views(ps@)),
        ok ==> final(out)@ == old(out)@ + reason_tail(reason_code, views(ps@)),
{
    if ps.len() == 0 {
        assert(views(ps@) == Seq::<PropertyV>::empty());
        assert(crate::codec::property::props_bytes(views(ps@)) == Seq::<u8>::empty());
        if reason_code != 0 {
            out.push(reason_code);
        }
        assert(out@ == old(out)@ + reason_tail(reason_code, views(ps@)));
        true
    } else {
        out.push(reason_code);
        let ok = put_properties(out, ps);
        assert(ok ==> out@ == old(out)@ + reason_tail(reason_code, views(ps@)));
        ok
    }
}

fn put_publish_body(out: &mut Vec<u8>, p: &MqttPublish, version: u8) -> (ok: bool)
    ensures
        ok == fields_ok(PacketV::Publish(p@), version),
        ok ==> final(out)@ == old(out)@ + publish_body(p@, version),
{
    if p.qos > 2 || (p.qos > 0 && p.packet_id.is_none()) {
        return false;
    }
    if !put_str(out, &p.topic_name) {
        return false;
    }
    let ghost a = out@;
    if p.qos > 0 {
        match p.packet_id {
            Some(id) => put_u16(out, id),
            None => {},
        }
    }
    assert(out@ == a + id_if_qos(p.qos, p.packet_id));
    let ghost b = out@;
    if !put_props_if_v5(out, &p.properties, version) {
        return false;
    }
    put_bytes(out, p.payload.as_slice());
    assert(out@ == old(out)@ + publish_body(p@, version));
    true
}

fn put_ack_body(out: &mut Vec<u8>, a: &MqttAck, version: u8) -> (ok: bool)
    ensures
        ok == v5_props_ok(a@.properties, version),
        ok ==> final(out)@ == old(out)@ + ack_body(a@, version),
{
    put_u16(out, a.packet_id);
    if version == 5 {
        let ok = put_reason_tail(out, a.reason_code, &a.properties);
        assert(ok ==> out@ == old(out)@ + ack_body(a@, version));
        ok
    } else {
        assert(out@ == old(out)@ + ack_body(a@, version));
        true
    }
}

fn put_connack_body(out: &mut Vec<u8>, c: &MqttConnAck, version: u8) -> (ok: bool)
    ensures
        ok == v5_props_ok(c@.properties, version),
        ok ==> final(out)@ == old(out)@ + connack_body(c@, version),
{
    out.push(if c.session_present { 1u8 } else { 0u8 });
    out.push(c.reason_code);
    let ok = put_props_if_v5(out, &c.properties, version);
    assert(ok ==> out@ == old(out)@ + connack_body(c@, version));
    ok
}

fn put_suback_body(out: &mut Vec<u8>, s: &MqttSubAck, version: u8) -> (ok: bool)
    ensures
        ok == v5_props_ok(s@.properties, version),
        ok ==> final(out)@ == old(out)@ + suback_body(s@, version),
{
    put_u16(out, s.packet_id);
    if !put_props_if_v5(out, &s.properties, version) {
        return false;
    }
    put_bytes(out, s.reason_codes.as_slice());
    assert(out@ == old(out)@ + suback_body(s@, version));
    true
}

fn put_unsuback_body(out: &mut Vec<u8>, s: &MqttSubAck, version: u8) -> (ok: bool)
    ensures
        ok == v5_props_ok(s@.properties, version),
        ok ==> final(out)@ == old(out)@ + unsuback_body(s@, version),
{
    if version == 5 {
        put_suback_body(out, s, version)
    } else {
        put_u16(out, s.packet_id);
        true
    }
}

/// Whether one subscription can be encoded.
pub open spec fn sub_valid(t: TopicSubscriptionV) -> bool {
    str_ok(t.topic_filter) && t.qos <= 2 && t.retain_handling <= 2
}

fn put_subscribe_body(out: &mut Vec<u8>, s: &MqttSubscribe, version: u8) -> (ok: bool)
    ensures
        ok == fields_ok(PacketV::Subscribe(s@), version),
        ok ==> final(out)@ == old(out)@ + subscribe_body(s@, version),
{
    put_u16(out, s.packet_id);
    if !put_props_if_v5(out, &s.properties, version) {
        return false;
    }
    let ghost head = out@;
    let ghost ss = s@.subscriptions;
    let mut i: usize = 0;
    while i < s.subscriptions.len()
        invariant
            i <= s.subscriptions@.len(),
            ss == s@.subscriptions,
            ss.len() == s.subscriptions@.len(),
            out@ == head + subs_bytes(ss.take(i as int), version),
            forall|j: int| 0 <= j < i ==> #[trigger] sub_valid(ss[j]),
        decreases s.subscriptions@.len() - i,
    {
        let sub = &s.subscriptions[i];
        assert(ss[i as int] == s.subscriptions@[i as int]@);
        if sub.qos > 2 || sub.retain_handling > 2 {
            assert(ss[i as int].qos == sub.qos && ss[i as int].retain_handling == sub.retain_handling);
            assert(!subs_ok(ss)) by {
                if subs_ok(ss) {
                    assert(0 <= i < ss.len());
                    let t = ss[i as int].topic_filter;
                    assert(str_ok(t));
                }
            }
            return false;
        }
        if !put_str(out, &sub.topic_filter) {
            assert(ss[i as int].topic_filter == sub.topic_filter@);
            assert(!subs_ok(ss)) by {
                if subs_ok(ss) {
                    assert(str_ok(ss[i as int].topic_filter));
                }
            }
            return false;
        }
        let opts: u8 = if version == 5 {
            sub.qos + (if sub.no_local { 4u8 } else { 0u8 }) + (if sub.retain_as_published { 8u8 } else { 0u8 })
                + sub.retain_handling * 16
        } else {
            sub.qos
        };
        out.push(opts);
        proof {
            assert(ss.take(i + 1).drop_last() == ss.take(i as int));
            assert(opts == sub_options(ss[i as int], version));
            assert(sub_valid(ss[i as int]));
        }
        i += 1;
    }
    assert(ss.take(i as int) == ss);
    assert(subs_ok(ss)) by {
        assert forall|j: int| 0 <= j < ss.len() implies str_ok(#[trigger] ss[j].topic_filter) && ss[j].qos <= 2
            && ss[j].retain_handling <= 2 by {
            assert(sub_valid(ss[j]));
        }
    }
    assert(out@ == old(out)@ + subscribe_body(s@, version));
    true
}

fn put_unsubscribe_body(out: &mut Vec<u8>, u: &MqttUnsubscribe, version: u8) -> (ok: bool)
    ensures
        ok == fields_ok(PacketV::Unsubscribe(u@), version),
        ok ==> final(out)@ == old(out)@ + unsubscribe_body(u@, version),
{
    put_u16(out, u.packet_id);
    if !put_props_if_v5(out, &u.properties, version) {
        return false;
    }
    let ghost head = out@;
    let ghost ts = u@.topics;
    let mut i: usize = 0;
    while i < u.topics.len()
        invariant
            i <= u.topics@.len(),
            ts == u@.topics,
            ts.len() == u.topics@.len(),
            out@ == head + topics_bytes(ts.take(i as int)),
            forall|j: int| 0 <= j < i ==> str_ok(#[trigger] ts[j]),
        decreases u.topics@.len() - i,
    {
        assert(ts[i as int] == u.topics@[i as int]@);
        if !put_str(out, &u.topics[i]) {
            return false;
        }
        assert(ts.take(i + 1).drop_last() == ts.take(i as int));
        i += 1;
    }
    assert(ts.take(i as int) == ts);
    assert(out@ == old(out)@ + unsubscribe_body(u@, version));
    true
}

fn put_reason_body(out: &mut Vec<u8>, r: &MqttReason, version: u8) -> (ok: bool)
    ensures
        ok == v5_props_ok(r@.properties, version),
        ok ==> final(out)@ == old(out)@ + reason_body(r@, version),
{
    if version == 5 {
        put_reason_tail(out, r.reason_code, &r.properties)
    } else {
        assert(out@ == old(out)@ + reason_body(r@, version));
        true
    }
}

fn put_will(out: &mut Vec<u8>, will: &Option<Will>, version: u8) -> (ok: bool)
    ensures
        ok == will_ok(match will { Some(w) => Some(w@), None => None }, version),
        ok ==> final(out)@ == old(out)@ + will_bytes(match will { Some(w) => Some(w@), None => None }, version),
{
    match will {
        Some(w) => {
            if w.qos > 2 {
                return false;
            }
            if !put_props_if_v5(out, &w.properties, version) {
                return false;
            }
            let ghost a = out@;
            if !put_str(out, &w.topic) {
                return false;
            }
            let ghost b = out@;
            if !put_bin(out, w.payload.as_slice()) {
                return false;
            }
            assert(out@ == old(out)@ + will_bytes(Some(w@), version));
            true
        },
        None => {
            assert(out@ == old(out)@ + will_bytes(None, version));
            true
        },
    }
}

fn put_connect_header(out: &mut Vec<u8>, c: &MqttConnect, version: u8)
    requires
        c.will matches Some(w) ==> w.qos <= 2,
    ensures
        final(out)@ == old(out)@ + connect_header(c@, version),
{
    let will_qos: u8 = match &c.will {
        Some(w) => w.qos,
        None => 0,
    };
    out.push(0);
    out.push(4);
    out.push(0x4D);
    out.push(0x51);
    out.push(0x54);
    out.push(0x54);
    out.push(if version == 5 { 5u8 } else { 4u8 });
    let flags: u8 = (if c.username.is_some() { 128u8 } else { 0u8 })
        + (if c.password.is_some() { 64u8 } else { 0u8 })
        + (match &c.will { Some(w) => if w.retain { 32u8 } else { 0u8 }, None => 0u8 })
        + will_qos * 8 + (if c.will.is_some() { 4u8 } else { 0u8 })
        + (if c.clean_start { 2u8 } else { 0u8 });
    assert(flags == connect_flags(c@));
    out.push(flags);
    put_u16(out, c.keep_alive);
    assert(out@ == old(out)@ + protocol_name() + seq![if version == 5 { 5u8 } else { 4u8 }, connect_flags(c@)]
            + be16(c.keep_alive));
}

fn put_credentials(out: &mut Vec<u8>, c: &MqttConnect) -> (ok: bool)
    ensures
        ok == credentials_ok(c@),
        ok ==> final(out)@ == old(out)@ + credentials_bytes(c@),
{
    match &c.username {
        Some(u) => {
            if !put_str(out, u) {
                return false;
            }
        },
        None => {},
    }
    let ghost d = out@;
    match &c.password {
        Some(pw) => {
            if !put_bin(out, pw.as_slice()) {
                return false;
            }
        },
        None => {},
    }
    assert(out@ == old(out)@ + credentials_bytes(c@));
    true
}

fn put_connect_body(out: &mut Vec<u8>, c: &MqttConnect, version: u8) -> (ok: bool)
    ensures
        ok == fields_ok(PacketV::Connect(c@), version),
        ok ==> final(out)@ == old(out)@ + connect_body(c@, version),
{
    let will_qos: u8 = match &c.will {
        Some(w) => w.qos,
        None => 0,
    };
    if will_qos > 2 {
        return false;
    }
    put_connect_header(out, c, version);
    let ghost h = out@;
    if !put_props_if_v5(out, &c.properties, version) {
        return false;
    }
    let ghost i = out@;
    if !put_str(out, &c.client_id) {
        return false;
    }
    let ghost j = out@;
    if !put_will(out, &c.will, version) {
        return false;
    }
    let ghost k = out@;
    if !put_credentials(out, c) {
        return false;
    }
    assert(out@ == old(out)@ + connect_body(c@, version));
    true
}

fn packet_first_byte(p: &MqttPacket) -> (r: u8)
    requires
        p matches MqttPacket::Publish(x) ==> x.qos <= 2,
    ensures
        r == first_byte(p@),
{
    match p {
        MqttPacket::Connect(_) => 0x10,
        MqttPacket::ConnAck(_) => 0x20,
        MqttPacket::Publish(x) => 0x30 + (if x.dup { 8u8 } else { 0u8 }) + x.qos * 2 + (if x.retain { 1u8 } else { 0u8 }),
        MqttPacket::PubAck(_) => 0x40,
        MqttPacket::PubRec(_) => 0x50,
        MqttPacket::PubRel(_) => 0x62,
        MqttPacket::PubComp(_) => 0x70,
        MqttPacket::Subscribe(_) => 0x82,
        MqttPacket::SubAck(_) => 0x90,
        MqttPacket::Unsubscribe(_) => 0xA2,
        MqttPacket::UnsubAck(_) => 0xB0,
        MqttPacket::PingReq => 0xC0,
        MqttPacket::PingResp => 0xD0,
        MqttPacket::Disconnect(_) => 0xE0,
        MqttPacket::Auth(_) => 0xF0,
    }
}

/// A copy of a list of strings.
pub fn copy_strings(v: &Vec<String>) -> (r: Vec<String>)
    ensures
        r@ == v@,
{
    let mut r: Vec<String> = Vec::new();
    let mut i: usize = 0;
    while i < v.len()
        invariant
            i <= v@.len(),
            r@ == v@.take(i as int),
        decreases v@.len() - i,
    {
        r.push(v[i].clone());
        assert(v@.take(i + 1) == v@.take(i as int).push(v@[i as int]));
        i += 1;
    }
    assert(v@.take(i as int) == v@);
    r
}

fn copy_subscriptions(v: &Vec<TopicSubscription>) -> (r: Vec<TopicSubscription>)
    ensures
        r@ == v@,
{
    let mut r: Vec<TopicSubscription> = Vec::new();
    let mut i: usize = 0;
    while i < v.len()
        invariant
            i <= v@.len(),
            r@ == v@.take(i as int),
        decreases v@.len() - i,
    {
        let s = &v[i];
        r.push(TopicSubscription {
            topic_filter: s.topic_filter.clone(),
            qos: s.qos,
            no_local: s.no_local,
            retain_as_published: s.retain_as_published,
            retain_handling: s.retain_handling,
        });
        assert(v@.take(i + 1) == v@.take(i as int).push(v@[i as int]));
        i += 1;
    }
    assert(v@.take(i as int) == v@);
    r
}

fn copy_ack(a: &MqttAck) -> (r: MqttAck)
    ensures
        r@ == a@,
{
    MqttAck { packet_id: a.packet_id, reason_code: a.reason_code, properties: copy_properties(&a.properties) }
}

fn copy_sub_ack(a: &MqttSubAck) -> (r: MqttSubAck)
    ensures
        r@ == a@,
{
    MqttSubAck {
        packet_id: a.packet_id,
        reason_codes: copy_bytes(&a.reason_codes),
        properties: copy_properties(&a.properties),
    }
}

fn copy_reason(a: &MqttReason) -> (r: MqttReason)
    ensures
        r@ == a@,
{
    MqttReason { reason_code: a.reason_code, properties: copy_properties(&a.properties) }
}

/// A copy of a will with the same view.
pub fn copy_will(w: &Will) -> (r: Will)
    ensures
        r@ == w@,
{
    Will {
        topic: w.topic.clone(),
        payload: copy_bytes(&w.payload),
        qos: w.qos,
        retain: w.retain,
        properties: copy_properties(&w.properties),
    }
}

fn copy_connect(c: &MqttConnect) -> (r: MqttConnect)
    ensures
        r@ == c@,
{
    let username = match &c.username {
        Some(u) => Some(u.clone()),
        None => None,
    };
    let password = match &c.password {
        Some(pw) => Some(copy_bytes(pw)),
        None => None,
    };
    let will = match &c.will {
        Some(w) => Some(copy_will(w)),
        None => None,
    };
    MqttConnect {
        client_id: c.client_id.clone(),
        username,
        password,
        will,
        keep_alive: c.keep_alive,
        clean_start: c.clean_start,
        properties: copy_properties(&c.properties),
    }
}

/// A copy of a packet with the same view.
pub fn copy_packet(p: &MqttPacket) -> (r: MqttPacket)
    ensures
        r@ == p@,
{
    match p {
        MqttPacket::Connect(c) => MqttPacket::Connect(copy_connect(c)),
        MqttPacket::ConnAck(a) => MqttPacket::ConnAck(MqttConnAck {
            session_present: a.session_present,
            reason_code: a.reason_code,
            properties: copy_properties(&a.properties),
        }),
        MqttPacket::Publish(x) => MqttPacket::Publish(MqttPublish {
            qos: x.qos,
            topic_name: x.topic_name.clone(),
            packet_id: x.packet_id,
            payload: copy_bytes(&x.payload),
            retain: x.retain,
            dup: x.dup,
            properties: copy_properties(&x.properties),
        }),
        MqttPacket::PubAck(a) => MqttPacket::PubAck(copy_ack(a)),
        MqttPacket::PubRec(a) => MqttPacket::PubRec(copy_ack(a)),
        MqttPacket::PubRel(a) => MqttPacket::PubRel(copy_ack(a)),
        MqttPacket::PubComp(a) => MqttPacket::PubComp(copy_ack(a)),
        MqttPacket::Subscribe(x) => MqttPacket::Subscribe(MqttSubscribe {
            packet_id: x.packet_id,
            subscriptions: copy_subscriptions(&x.subscriptions),
            properties: copy_properties(&x.properties),
        }),
        MqttPacket::SubAck(a) => MqttPacket::SubAck(copy_sub_ack(a)),
        MqttPacket::Unsubscribe(x) => MqttPacket::Unsubscribe(MqttUnsubscribe {
            packet_id: x.packet_id,
            topics: copy_strings(&x.topics),
            properties: copy_properties(&x.properties),
        }),
        MqttPacket::UnsubAck(a) => MqttPacket::UnsubAck(copy_sub_ack(a)),
        MqttPacket::PingReq => MqttPacket::PingReq,
        MqttPacket::PingResp => MqttPacket::PingResp,
        MqttPacket::Disconnect(a) => MqttPacket::Disconnect(copy_reason(a)),
        MqttPacket::Auth(a) => MqttPacket::Auth(copy_reason(a)),
    }
}

/// Encodes a packet for the given protocol version (5 for MQTT 5.0, any
/// other value for 3.1.1). `None` when a field does not fit its encoding,
/// or the packet is an AUTH outside MQTT 5.
pub fn encode_packet(p: &MqttPacket, version: u8) -> (r: Option<Vec<u8>>)
    ensures
        r is Some <==> packet_ok(p@, version),
        r matches Some(b) ==> b@ == packet_bytes(p@, version),
{
    let mut body: Vec<u8> = Vec::new();
    let ok = match p {
        MqttPacket::Connect(c) => put_connect_body(&mut body, c, version),
        MqttPacket::ConnAck(c) => put_connack_body(&mut body, c, version),
        MqttPacket::Publish(x) => put_publish_body(&mut body, x, version),
        MqttPacket::PubAck(a) => put_ack_body(&mut body, a, version),
        MqttPacket::PubRec(a) => put_ack_body(&mut body, a, version),
        MqttPacket::PubRel(a) => put_ack_body(&mut body, a, version),
        MqttPacket::PubComp(a) => put_ack_body(&mut body, a, version),
        MqttPacket::Subscribe(s) => put_subscribe_body(&mut body, s, version),
        MqttPacket::SubAck(s) => put_suback_body(&mut body, s, version),
        MqttPacket::Unsubscribe(u) => put_unsubscribe_body(&mut body, u, version),
        MqttPacket::UnsubAck(s) => put_unsuback_body(&mut body, s, version),
        MqttPacket::PingReq => true,
        MqttPacket::PingResp => true,
        MqttPacket::Disconnect(r) => put_reason_body(&mut body, r, version),
        MqttPacket::Auth(r) => {
            if version == 5 {
                put_reason_body(&mut body, r, version)
            } else {
                false
            }
        },
    };
    if !ok {
        return None;
    }
    assert(body@ == packet_body(p@, version));
    if body.len() > 268_435_455 {
        return None;
    }
    let mut out: Vec<u8> = Vec::new();
    out.push(packet_first_byte(p));
    put_vbi(&mut out, body.len() as u32);
    put_bytes(&mut out, body.as_slice());
    Some(out)
}

/// Each packet's first byte is the MQTT control packet type of its kind in
/// the high four bits, with the flags MQTT fixes in the low four: DUP, QoS
/// and RETAIN for PUBLISH, 0b0010 for PUBREL, SUBSCRIBE and UNSUBSCRIBE, and
/// 0 otherwise.
pub proof fn law_packet_types(p: PacketV)
    ensures
        p is Connect ==> first_byte(p) == 1 * 16,
        p is ConnAck ==> first_byte(p) == 2 * 16,
        p matches PacketV::Publish(x) ==> (x.qos <= 2 ==> first_byte(p) == 3 * 16 + (if x.dup { 8int } else { 0 }) + x.qos * 2 + (
            if x.retain { 1int } else { 0 })),
        p is PubAck ==> first_byte(p) == 4 * 16,
        p is PubRec ==> first_byte(p) == 5 * 16,
        p is PubRel ==> first_byte(p) == 6 * 16 + 2,
        p is PubComp ==> first_byte(p) == 7 * 16,
        p is Subscribe ==> first_byte(p) == 8 * 16 + 2,
        p is SubAck ==> first_byte(p) == 9 * 16,
        p is Unsubscribe ==> first_byte(p) == 10 * 16 + 2,
        p is UnsubAck ==> first_byte(p) == 11 * 16,
        p is PingReq ==> first_byte(p) == 12 * 16,
        p is PingResp ==> first_byte(p) == 13 * 16,
        p is Disconnect ==> first_byte(p) == 14 * 16,
        p is Auth ==> first_byte(p) == 15 * 16,
{
}

} // verus!
