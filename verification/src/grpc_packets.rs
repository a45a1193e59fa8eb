//! The protobuf form of MQTT 5 and MQTT 3.1.1 packets, as the gRPC relay
//! carries them, and the conversions between it and the packets. Narrow
//! integers are widened on the way out and cut back to their width on the
//! way in.

use vstd::prelude::*;
use crate::codec::packet::{
    MqttAck, MqttConnAck, MqttConnect, MqttPublish, MqttReason, MqttSubAck, MqttSubscribe, MqttUnsubscribe,
    TopicSubscription, Will,
};
use crate::codec::property::Property;
use crate::grpc::{
    convert_properties_from_pb, convert_properties_to_pb, flags_ok, law_pb_round_trip, pb_of, properties_of,
    property_from_pb, property_of_type, PbProperty, PbPropertyType,
};

verus! {

/// The protobuf form of a will.
#[derive(Debug, Clone, PartialEq)]
pub struct PbWill {
    pub qos: i32,
    pub retain: bool,
    pub topic: String,
    pub payload: Vec<u8>,
    pub properties: Vec<PbProperty>,
}

/// The protobuf form of CONNECT; an empty user name or password stands for
/// none.
#[derive(Debug, Clone, PartialEq)]
pub struct PbConnect {
    pub client_id: String,
    pub protocol_name: String,
    pub protocol_version: u32,
    pub clean_start: bool,
    pub keep_alive: u32,
    pub username: String,
    pub password: Vec<u8>,
    pub will: Option<PbWill>,
    pub properties: Vec<PbProperty>,
}

/// The protobuf form of CONNACK.
#[derive(Debug, Clone, PartialEq)]
pub struct PbConnack {
    pub session_present: bool,
    pub reason_code: u32,
    pub properties: Vec<PbProperty>,
}

/// The protobuf form of PUBLISH; a message id of 0 stands for none.
#[derive(Debug, Clone, PartialEq)]
pub struct PbPublish {
    pub topic: String,
    pub payload: Vec<u8>,
    pub qos: i32,
    pub retain: bool,
    pub dup: bool,
    pub message_id: u32,
    pub properties: Vec<PbProperty>,
}

/// The protobuf form of PUBACK, PUBREC, PUBREL and PUBCOMP.
#[derive(Debug, Clone, PartialEq)]
pub struct PbAck {
    pub message_id: u32,
    pub reason_code: u32,
    pub properties: Vec<PbProperty>,
}

/// The protobuf form of one topic filter of SUBSCRIBE with its options.
#[derive(Debug, Clone, PartialEq)]
pub struct PbTopicSubscription {
    pub topic_filter: String,
    pub qos: u32,
    pub no_local: bool,
    pub retain_as_published: bool,
    pub retain_handling: u32,
}

/// The protobuf form of SUBSCRIBE.
#[derive(Debug, Clone, PartialEq)]
pub struct PbSubscribe {
    pub message_id: u32,
    pub subscriptions: Vec<PbTopicSubscription>,
    pub properties: Vec<PbProperty>,
}

/// The protobuf form of SUBACK and UNSUBACK.
#[derive(Debug, Clone, PartialEq)]
pub struct PbSuback {
    pub message_id: u32,
    pub reason_codes: Vec<u32>,
    pub properties: Vec<PbProperty>,
}

/// The protobuf form of UNSUBSCRIBE.
#[derive(Debug, Clone, PartialEq)]
pub struct PbUnsubscribe {
    pub message_id: u32,
    pub topic_filters: Vec<String>,
    pub properties: Vec<PbProperty>,
}

/// The protobuf form of DISCONNECT and AUTH.
#[derive(Debug, Clone, PartialEq)]
pub struct PbReason {
    pub reason_code: u32,
    pub properties: Vec<PbProperty>,
}

/// The protobuf forms of a list of properties.
pub open spec fn pb_props(ps: Seq<Property>) -> Seq<PbProperty> {
    ps.map_values(|p: Property| pb_of(p))
}

/// The protobuf form of a topic filter with its options.
pub open spec fn pb_subscription_of(t: TopicSubscription) -> PbTopicSubscription {
    PbTopicSubscription {
        topic_filter: t.topic_filter,
        qos: t.qos as u32,
        no_local: t.no_local,
        retain_as_published: t.retain_as_published,
        retain_handling: t.retain_handling as u32,
    }
}

/// The topic filter a protobuf one stands for.
pub open spec fn subscription_of(t: PbTopicSubscription) -> TopicSubscription {
    TopicSubscription {
        topic_filter: t.topic_filter,
        qos: t.qos as u8,
        no_local: t.no_local,
        retain_as_published: t.retain_as_published,
        retain_handling: t.retain_handling as u8,
    }
}

/// Whether a protobuf property is one a will carries: delay, payload
/// format, expiry, content type, response topic, correlation data or a
/// user property.
pub open spec fn is_will_property(p: PbProperty) -> bool {
    match p.property_type {
        Some(t) => match t {
            PbPropertyType::WillDelayInterval(_) => true,
            PbPropertyType::PayloadFormatIndicator(_) => true,
            PbPropertyType::MessageExpiryInterval(_) => true,
            PbPropertyType::ContentType(_) => true,
            PbPropertyType::ResponseTopic(_) => true,
            PbPropertyType::CorrelationData(_) => true,
            PbPropertyType::UserProperty(_) => true,
            _ => false,
        },
        None => false,
    }
}

/// The will properties a list of protobuf properties stands for, in order;
/// the others are left out.
pub open spec fn will_properties_of(ps: Seq<PbProperty>) -> Seq<Property>
    decreases ps.len(),
{
    if ps.len() == 0 {
        seq![]
    } else if is_will_property(ps.last()) {
        will_properties_of(ps.drop_last()).push(property_of_type(ps.last().property_type->0))
    } else {
        will_properties_of(ps.drop_last())
    }
}

/// `pw` is the protobuf form of the will `w`.
pub open spec fn pb_will_of(w: Will, pw: PbWill) -> bool {
    &&& pw.qos == w.qos as i32 && pw.retain == w.retain && pw.topic == w.topic && pw.payload == w.payload
    &&& pw.properties@ == pb_props(w.properties@)
}

/// `w` is the will that the protobuf will `pw` stands for.
pub open spec fn will_of(pw: PbWill, w: Will) -> bool {
    &&& w.qos == pw.qos as u8 && w.retain == pw.retain && w.topic == pw.topic && w.payload == pw.payload
    &&& w.properties@ == will_properties_of(pw.properties@)
}

/// `q` is the protobuf form of the PUBLISH `p`: a message id of 0 where it
/// has no identifier.
pub open spec fn pb_publish_of(p: MqttPublish, q: PbPublish) -> bool {
    &&& q.topic == p.topic_name && q.payload == p.payload && q.qos == p.qos as i32
    &&& q.retain == p.retain && q.dup == p.dup
    &&& q.message_id == (match p.packet_id {
        Some(id) => id as u32,
        None => 0u32,
    })
    &&& q.properties@ == pb_props(p.properties@)
}

/// `p` is the PUBLISH the protobuf `q` stands for: its message id kept as
/// the identifier whatever the QoS, its numbers cut to their widths.
pub open spec fn publish_of(q: PbPublish, p: MqttPublish) -> bool {
    &&& p.qos == q.qos as u8 && p.topic_name == q.topic && p.packet_id == Some(q.message_id as u16)
    &&& p.payload == q.payload && p.retain == q.retain && p.dup == q.dup
    &&& p.properties@ == properties_of(q.properties@)
}

/// Properties whose flags are 0 or 1 come back unchanged from their
/// protobuf form, in order.
pub proof fn law_pb_props_round_trip(ps: Seq<Property>)
    requires
        forall|i: int| 0 <= i < ps.len() ==> flags_ok(#[trigger] ps[i]),
    ensures
        properties_of(pb_props(ps)) == ps,
    decreases ps.len(),
{
    if ps.len() > 0 {
        assert(pb_props(ps).drop_last() =~= pb_props(ps.drop_last()));
        law_pb_props_round_trip(ps.drop_last());
        law_pb_round_trip(ps.last());
        assert(ps.drop_last().push(ps.last()) =~= ps);
    }
}

/// A PUBLISH with an identifier, whose property flags are 0 or 1, comes
/// back from its protobuf form as it was.
pub proof fn law_publish_pb_round_trip(p: MqttPublish, q: PbPublish, r: MqttPublish)
    requires
        p.packet_id is Some,
        forall|i: int| 0 <= i < p.properties@.len() ==> flags_ok(#[trigger] p.properties@[i]),
        pb_publish_of(p, q),
        publish_of(q, r),
    ensures
        r.qos == p.qos && r.topic_name == p.topic_name && r.packet_id == p.packet_id && r.payload == p.payload,
        r.retain == p.retain && r.dup == p.dup && r.properties@ == p.properties@,
{
    let qos = p.qos;
    assert((qos as i32) as u8 == qos) by (bit_vector);
    let id = p.packet_id->0;
    assert((id as u32) as u16 == id) by (bit_vector);
    law_pb_props_round_trip(p.properties@);
}

/// A will converted to protobuf and back keeps everything, as long as its
/// properties are ones a will carries (delay, payload format, expiry,
/// content type, response topic, correlation data, user properties) and its
/// flags are 0 or 1; any other property of a protobuf will is dropped.
pub proof fn law_will_pb_round_trip(w: Will, pw: PbWill, back: Will)
    requires
        forall|i: int| 0 <= i < w.properties@.len() ==> {
            let p = #[trigger] w.properties@[i];
            &&& p is WillDelayInterval || p is PayloadFormatIndicator || p is MessageExpiryInterval || p is ContentType
                || p is ResponseTopic || p is CorrelationData || p is UserProperty
            &&& flags_ok(p)
        },
        pb_will_of(w, pw),
        will_of(pw, back),
    ensures
        back.qos == w.qos && back.retain == w.retain && back.topic == w.topic && back.payload == w.payload,
        back.properties@ == w.properties@,
{
    let q = w.qos;
    assert((q as i32) as u8 == q) by (bit_vector);
    lemma_will_props_round_trip(w.properties@);
}

proof fn lemma_will_props_round_trip(ps: Seq<Property>)
    requires
        forall|i: int| 0 <= i < ps.len() ==> {
            let p = #[trigger] ps[i];
            &&& p is WillDelayInterval || p is PayloadFormatIndicator || p is MessageExpiryInterval || p is ContentType
                || p is ResponseTopic || p is CorrelationData || p is UserProperty
            &&& flags_ok(p)
        },
    ensures
        will_properties_of(pb_props(ps)) == ps,
    decreases ps.len(),
{
    if ps.len() > 0 {
        assert(pb_props(ps).drop_last() =~= pb_props(ps.drop_last()));
        lemma_will_props_round_trip(ps.drop_last());
        let last = ps[ps.len() - 1];
        law_pb_round_trip(last);
        assert(is_will_property(pb_of(last)));
        assert(ps.drop_last().push(last) =~= ps);
    }
}

/// A protobuf will keeps none of the properties a will does not carry.
pub proof fn law_will_drops_other_properties(p: Property)
    requires
        !(p is WillDelayInterval || p is PayloadFormatIndicator || p is MessageExpiryInterval || p is ContentType
            || p is ResponseTopic || p is CorrelationData || p is UserProperty),
    ensures
        will_properties_of(seq![pb_of(p)]).len() == 0,
{
    let one = seq![pb_of(p)];
    assert(one.drop_last() =~= Seq::<PbProperty>::empty());
    assert(one.last() == pb_of(p));
    assert(!is_will_property(pb_of(p)));
    assert(will_properties_of(one.drop_last()) == Seq::<Property>::empty());
}

/// The protobuf form of PUBLISH keeps each field under its own name: topic,
/// payload, QoS, RETAIN and DUP flags, the identifier (0 for none) and the
/// properties; the way back keeps them too, with the message id as the
/// identifier.
pub proof fn law_publish_fields(p: MqttPublish, q: PbPublish, r: MqttPublish)
    ensures
        pb_publish_of(p, q) ==> q.topic == p.topic_name && q.payload == p.payload && q.qos == p.qos as i32
            && q.retain == p.retain && q.dup == p.dup && q.properties@ == pb_props(p.properties@)
            && (p.packet_id matches Some(id) ==> q.message_id == id as u32) && (p.packet_id is None ==> q.message_id
            == 0),
        publish_of(q, r) ==> r.topic_name == q.topic && r.payload == q.payload && r.qos == q.qos as u8 && r.retain
            == q.retain && r.dup == q.dup && r.packet_id == Some(q.message_id as u16) && r.properties@ == properties_of(
            q.properties@,
        ),
{
}

/// A topic filter keeps each option under its own name in protobuf form and
/// back.
pub proof fn law_subscription_fields(t: TopicSubscription, u: PbTopicSubscription)
    ensures
        pb_subscription_of(t).topic_filter == t.topic_filter && pb_subscription_of(t).qos == t.qos as u32
            && pb_subscription_of(t).no_local == t.no_local && pb_subscription_of(t).retain_as_published
            == t.retain_as_published && pb_subscription_of(t).retain_handling == t.retain_handling as u32,
        subscription_of(u).topic_filter == u.topic_filter && subscription_of(u).qos == u.qos as u8
            && subscription_of(u).no_local == u.no_local && subscription_of(u).retain_as_published
            == u.retain_as_published && subscription_of(u).retain_handling == u.retain_handling as u8,
        pb_v3_subscription_of(t).topic_filter == t.topic_filter && pb_v3_subscription_of(t).qos == t.qos as u32,
{
}

/// A will keeps each field under its own name in protobuf form and back.
pub proof fn law_will_fields(w: Will, pw: PbWill, back: Will)
    ensures
        pb_will_of(w, pw) ==> pw.qos == w.qos as i32 && pw.retain == w.retain && pw.topic == w.topic && pw.payload
            == w.payload && pw.properties@ == pb_props(w.properties@),
        will_of(pw, back) ==> back.qos == pw.qos as u8 && back.retain == pw.retain && back.topic == pw.topic
            && back.payload == pw.payload,
{
}

/// The protobuf form of PUBLISH.
pub fn publish_to_pb(p: MqttPublish) -> (r: PbPublish)
    ensures
        pb_publish_of(p, r),
{
    let message_id: u32 = match p.packet_id {
        Some(id) => id as u32,
        None => 0,
    };
    PbPublish {
        topic: p.topic_name,
        payload: p.payload,
        qos: p.qos as i32,
        retain: p.retain,
        dup: p.dup,
        message_id,
        properties: convert_properties_to_pb(p.properties),
    }
}

/// The PUBLISH a protobuf one stands for. Its message id is kept as the
/// packet identifier whatever the QoS, cut to 16 bits, and the QoS is cut
/// to 8 bits.
pub fn pb_to_publish(p: PbPublish) -> (r: MqttPublish)
    ensures
        publish_of(p, r),
{
    MqttPublish {
        qos: p.qos as u8,
        topic_name: p.topic,
        packet_id: Some(p.message_id as u16),
        payload: p.payload,
        retain: p.retain,
        dup: p.dup,
        properties: convert_properties_from_pb(p.properties),
    }
}

/// The protobuf form of PUBACK, PUBREC, PUBREL or PUBCOMP.
pub fn ack_to_pb(a: MqttAck) -> (r: PbAck)
    ensures
        r.message_id == a.packet_id as u32,
        r.reason_code == a.reason_code as u32,
        r.properties@ == pb_props(a.properties@),
{
    PbAck {
        message_id: a.packet_id as u32,
        reason_code: a.reason_code as u32,
        properties: convert_properties_to_pb(a.properties),
    }
}

/// The acknowledgement a protobuf one stands for, its numbers cut to their
/// widths.
pub fn pb_to_ack(a: PbAck) -> (r: MqttAck)
    ensures
        r.packet_id == a.message_id as u16,
        r.reason_code == a.reason_code as u8,
        r.properties@ == properties_of(a.properties@),
{
    MqttAck {
        packet_id: a.message_id as u16,
        reason_code: a.reason_code as u8,
        properties: convert_properties_from_pb(a.properties),
    }
}

/// The protobuf form of CONNACK.
pub fn connack_to_pb(c: MqttConnAck) -> (r: PbConnack)
    ensures
        r.session_present == c.session_present,
        r.reason_code == c.reason_code as u32,
        r.properties@ == pb_props(c.properties@),
{
    PbConnack {
        session_present: c.session_present,
        reason_code: c.reason_code as u32,
        properties: convert_properties_to_pb(c.properties),
    }
}

/// The CONNACK a protobuf one stands for.
pub fn pb_to_connack(c: PbConnack) -> (r: MqttConnAck)
    ensures
        r.session_present == c.session_present,
        r.reason_code == c.reason_code as u8,
        r.properties@ == properties_of(c.properties@),
{
    MqttConnAck {
        session_present: c.session_present,
        reason_code: c.reason_code as u8,
        properties: convert_properties_from_pb(c.properties),
    }
}

/// The protobuf form of DISCONNECT or AUTH.
pub fn reason_to_pb(d: MqttReason) -> (r: PbReason)
    ensures
        r.reason_code == d.reason_code as u32,
        r.properties@ == pb_props(d.properties@),
{
    PbReason { reason_code: d.reason_code as u32, properties: convert_properties_to_pb(d.properties) }
}

/// The DISCONNECT or AUTH a protobuf one stands for.
pub fn pb_to_reason(d: PbReason) -> (r: MqttReason)
    ensures
        r.reason_code == d.reason_code as u8,
        r.properties@ == properties_of(d.properties@),
{
    MqttReason { reason_code: d.reason_code as u8, properties: convert_properties_from_pb(d.properties) }
}

/// The protobuf form of SUBSCRIBE.
pub fn subscribe_to_pb(s: MqttSubscribe) -> (r: PbSubscribe)
    ensures
        r.message_id == s.packet_id as u32,
        r.subscriptions@ == s.subscriptions@.map_values(|t: TopicSubscription| pb_subscription_of(t)),
        r.properties@ == pb_props(s.properties@),
{
    let mut rest = s.subscriptions;
    let ghost all = rest@;
    let ghost mut done: Seq<TopicSubscription> = seq![];
    let mut out: Vec<PbTopicSubscription> = Vec::new();
    while rest.len() > 0
        invariant
            all == done + rest@,
            out@ == done.map_values(|t: TopicSubscription| pb_subscription_of(t)),
        decreases rest@.len(),
    {
        let t = rest.remove(0);
        let ghost g = t;
        out.push(
            PbTopicSubscription {
                topic_filter: t.topic_filter,
                qos: t.qos as u32,
                no_local: t.no_local,
                retain_as_published: t.retain_as_published,
                retain_handling: t.retain_handling as u32,
            },
        );
        proof {
            assert(done.push(g).map_values(|t: TopicSubscription| pb_subscription_of(t)) =~= done.map_values(
                |t: TopicSubscription| pb_subscription_of(t),
            ).push(pb_subscription_of(g)));
            done = done.push(g);
        }
    }
    assert(done =~= all);
    PbSubscribe { message_id: s.packet_id as u32, subscriptions: out, properties: convert_properties_to_pb(s.properties) }
}

/// The SUBSCRIBE a protobuf one stands for, its numbers cut to their widths.
pub fn pb_to_subscribe(s: PbSubscribe) -> (r: MqttSubscribe)
    ensures
        r.packet_id == s.message_id as u16,
        r.subscriptions@ == s.subscriptions@.map_values(|t: PbTopicSubscription| subscription_of(t)),
        r.properties@ == properties_of(s.properties@),
{
    let mut rest = s.subscriptions;
    let ghost all = rest@;
    let ghost mut done: Seq<PbTopicSubscription> = seq![];
    let mut out: Vec<TopicSubscription> = Vec::new();
    while rest.len() > 0
        invariant
            all == done + rest@,
            out@ == done.map_values(|t: PbTopicSubscription| subscription_of(t)),
        decreases rest@.len(),
    {
        let t = rest.remove(0);
        let ghost g = t;
        out.push(
            TopicSubscription {
                topic_filter: t.topic_filter,
                qos: t.qos as u8,
                no_local: t.no_local,
                retain_as_published: t.retain_as_published,
                retain_handling: t.retain_handling as u8,
            },
        );
        proof {
            assert(done.push(g).map_values(|t: PbTopicSubscription| subscription_of(t)) =~= done.map_values(
                |t: PbTopicSubscription| subscription_of(t),
            ).push(subscription_of(g)));
            done = done.push(g);
        }
    }
    assert(done =~= all);
    MqttSubscribe {
        packet_id: s.message_id as u16,
        subscriptions: out,
        properties: convert_properties_from_pb(s.properties),
    }
}

/// The protobuf form of SUBACK or UNSUBACK.
pub fn suback_to_pb(s: MqttSubAck) -> (r: PbSuback)
    ensures
        r.message_id == s.packet_id as u32,
        r.reason_codes@ == s.reason_codes@.map_values(|c: u8| c as u32),
        r.properties@ == pb_props(s.properties@),
{
    let mut codes: Vec<u32> = Vec::new();
    let mut i: usize = 0;
    while i < s.reason_codes.len()
        invariant
            i <= s.reason_codes@.len(),
            codes@ == s.reason_codes@.take(i as int).map_values(|c: u8| c as u32),
        decreases s.reason_codes@.len() - i,
    {
        codes.push(s.reason_codes[i] as u32);
        assert(s.reason_codes@.take(i + 1).map_values(|c: u8| c as u32) =~= s.reason_codes@.take(i as int).map_values(
            |c: u8| c as u32,
        ).push(s.reason_codes@[i as int] as u32));
        i += 1;
    }
    assert(s.reason_codes@.take(i as int) =~= s.reason_codes@);
    PbSuback { message_id: s.packet_id as u32, reason_codes: codes, properties: convert_properties_to_pb(s.properties) }
}

/// The SUBACK or UNSUBACK a protobuf one stands for, its numbers cut to
/// their widths.
pub fn pb_to_suback(s: PbSuback) -> (r: MqttSubAck)
    ensures
        r.packet_id == s.message_id as u16,
        r.reason_codes@ == s.reason_codes@.map_values(|c: u32| c as u8),
        r.properties@ == properties_of(s.properties@),
{
    let mut codes: Vec<u8> = Vec::new();
    let mut i: usize = 0;
    while i < s.reason_codes.len()
        invariant
            i <= s.reason_codes@.len(),
            codes@ == s.reason_codes@.take(i as int).map_values(|c: u32| c as u8),
        decreases s.reason_codes@.len() - i,
    {
        codes.push(s.reason_codes[i] as u8);
        assert(s.reason_codes@.take(i + 1).map_values(|c: u32| c as u8) =~= s.reason_codes@.take(i as int).map_values(
            |c: u32| c as u8,
        ).push(s.reason_codes@[i as int] as u8));
        i += 1;
    }
    assert(s.reason_codes@.take(i as int) =~= s.reason_codes@);
    MqttSubAck { packet_id: s.message_id as u16, reason_codes: codes, properties: convert_properties_from_pb(s.properties) }
}

/// The protobuf form of UNSUBSCRIBE.
pub fn unsubscribe_to_pb(u: MqttUnsubscribe) -> (r: PbUnsubscribe)
    ensures
        r.message_id == u.packet_id as u32,
        r.topic_filters == u.topics,
        r.properties@ == pb_props(u.properties@),
{
    PbUnsubscribe {
        message_id: u.packet_id as u32,
        topic_filters: u.topics,
        properties: convert_properties_to_pb(u.properties),
    }
}

/// The UNSUBSCRIBE a protobuf one stands for.
pub fn pb_to_unsubscribe(u: PbUnsubscribe) -> (r: MqttUnsubscribe)
    ensures
        r.packet_id == u.message_id as u16,
        r.topics == u.topic_filters,
        r.properties@ == properties_of(u.properties@),
{
    MqttUnsubscribe {
        packet_id: u.message_id as u16,
        topics: u.topic_filters,
        properties: convert_properties_from_pb(u.properties),
    }
}

/// The will properties among protobuf properties, in order.
fn will_properties_from_pb(properties: Vec<PbProperty>) -> (r: Vec<Property>)
    ensures
        r@ == will_properties_of(properties@),
{
    let mut rest = properties;
    let ghost all = rest@;
    let ghost mut done: Seq<PbProperty> = seq![];
    let mut out: Vec<Property> = Vec::new();
    while rest.len() > 0
        invariant
            all == done + rest@,
            out@ == will_properties_of(done),
        decreases rest@.len(),
    {
        let p = rest.remove(0);
        let ghost g = p;
        let keep = match &p.property_type {
            Some(PbPropertyType::WillDelayInterval(_)) => true,
            Some(PbPropertyType::PayloadFormatIndicator(_)) => true,
            Some(PbPropertyType::MessageExpiryInterval(_)) => true,
            Some(PbPropertyType::ContentType(_)) => true,
            Some(PbPropertyType::ResponseTopic(_)) => true,
            Some(PbPropertyType::CorrelationData(_)) => true,
            Some(PbPropertyType::UserProperty(_)) => true,
            _ => false,
        };
        assert(keep == is_will_property(g));
        if keep {
            match property_from_pb(p) {
                Some(x) => out.push(x),
                None => {},
            }
        }
        proof {
            assert(done.push(g).drop_last() =~= done);
            done = done.push(g);
        }
    }
    assert(done =~= all);
    out
}

/// The protobuf form of CONNECT in MQTT 5: protocol "MQTT" level 5, with an
/// empty user name or password where there is none.
pub fn connect_to_pb(c: MqttConnect) -> (r: PbConnect)
    ensures
        r.client_id == c.client_id,
        r.protocol_name@ == "MQTT"@,
        r.protocol_version == 5,
        r.clean_start == c.clean_start,
        r.keep_alive == c.keep_alive as u32,
        r.username@ == (match c.username {
            Some(u) => u@,
            None => Seq::<char>::empty(),
        }),
        r.password@ == (match c.password {
            Some(p) => p@,
            None => Seq::<u8>::empty(),
        }),
        match (c.will, r.will) {
            (Some(w), Some(pw)) => pb_will_of(w, pw),
            (None, None) => true,
            _ => false,
        },
        r.properties@ == pb_props(c.properties@),
{
    let username = match c.username {
        Some(u) => u,
        None => String::new(),
    };
    let password = match c.password {
        Some(p) => p,
        None => Vec::new(),
    };
    let will = match c.will {
        Some(w) => Some(
            PbWill {
                qos: w.qos as i32,
                retain: w.retain,
                topic: w.topic,
                payload: w.payload,
                properties: convert_properties_to_pb(w.properties),
            },
        ),
        None => None,
    };
    PbConnect {
        client_id: c.client_id,
        protocol_name: "MQTT".to_owned(),
        protocol_version: 5,
        clean_start: c.clean_start,
        keep_alive: c.keep_alive as u32,
        username,
        password,
        will,
        properties: convert_properties_to_pb(c.properties),
    }
}

/// The CONNECT a protobuf one stands for: an empty user name or password is
/// none, the will keeps only will properties, and numbers are cut to their
/// widths. The protocol name and level are not read.
pub fn pb_to_connect(c: PbConnect) -> (r: MqttConnect)
    ensures
        r.client_id == c.client_id,
        r.username == (if c.username@.len() == 0 { None } else { Some(c.username) }),
        r.password == (if c.password@.len() == 0 { None } else { Some(c.password) }),
        match (c.will, r.will) {
            (Some(pw), Some(w)) => will_of(pw, w),
            (None, None) => true,
            _ => false,
        },
        r.keep_alive == c.keep_alive as u16,
        r.clean_start == c.clean_start,
        r.properties@ == properties_of(c.properties@),
{
    let username = if c.username.as_str().unicode_len() == 0 {
        None
    } else {
        Some(c.username)
    };
    let password = if c.password.len() == 0 {
        None
    } else {
        Some(c.password)
    };
    let will = match c.will {
        Some(w) => Some(
            Will {
                topic: w.topic,
                payload: w.payload,
                qos: w.qos as u8,
                retain: w.retain,
                properties: will_properties_from_pb(w.properties),
            },
        ),
        None => None,
    };
    MqttConnect {
        client_id: c.client_id,
        username,
        password,
        will,
        keep_alive: c.keep_alive as u16,
        clean_start: c.clean_start,
        properties: convert_properties_from_pb(c.properties),
    }
}

/// The protobuf form of an MQTT 3.1.1 will, which has no properties.
#[derive(Debug, Clone, PartialEq)]
pub struct PbV3Will {
    pub qos: i32,
    pub retain: bool,
    pub topic: String,
    pub payload: Vec<u8>,
}

/// The protobuf form of an MQTT 3.1.1 CONNECT.
#[derive(Debug, Clone, PartialEq)]
pub struct PbV3Connect {
    pub client_id: String,
    pub protocol_name: String,
    pub protocol_version: u32,
    pub clean_session: bool,
    pub keep_alive: u32,
    pub username: String,
    pub password: Vec<u8>,
    pub will: Option<PbV3Will>,
}

/// The protobuf form of an MQTT 3.1.1 CONNACK.
#[derive(Debug, Clone, PartialEq)]
pub struct PbV3Connack {
    pub session_present: bool,
    pub return_code: u32,
}

/// The protobuf form of an MQTT 3.1.1 PUBLISH; a message id of 0 stands for
/// none.
#[derive(Debug, Clone, PartialEq)]
pub struct PbV3Publish {
    pub topic: String,
    pub payload: Vec<u8>,
    pub qos: i32,
    pub retain: bool,
    pub dup: bool,
    pub message_id: u32,
}

/// The protobuf form of an MQTT 3.1.1 PUBACK, PUBREC, PUBREL, PUBCOMP or
/// UNSUBACK: the message id alone.
#[derive(Debug, Clone, PartialEq)]
pub struct PbV3Ack {
    pub message_id: u32,
}

/// The protobuf form of one topic filter of an MQTT 3.1.1 SUBSCRIBE.
#[derive(Debug, Clone, PartialEq)]
pub struct PbV3TopicSubscription {
    pub topic_filter: String,
    pub qos: u32,
}

/// The protobuf form of an MQTT 3.1.1 SUBSCRIBE.
#[derive(Debug, Clone, PartialEq)]
pub struct PbV3Subscribe {
    pub message_id: u32,
    pub subscriptions: Vec<PbV3TopicSubscription>,
}

/// The protobuf form of an MQTT 3.1.1 SUBACK.
#[derive(Debug, Clone, PartialEq)]
pub struct PbV3Suback {
    pub message_id: u32,
    pub return_codes: Vec<u32>,
}

/// The protobuf form of an MQTT 3.1.1 UNSUBSCRIBE.
#[derive(Debug, Clone, PartialEq)]
pub struct PbV3Unsubscribe {
    pub message_id: u32,
    pub topic_filters: Vec<String>,
}

/// The MQTT 3.1.1 protobuf form of a topic filter: the filter and its QoS.
pub open spec fn pb_v3_subscription_of(t: TopicSubscription) -> PbV3TopicSubscription {
    PbV3TopicSubscription { topic_filter: t.topic_filter, qos: t.qos as u32 }
}

/// The topic filter an MQTT 3.1.1 protobuf one stands for, with the options
/// MQTT 3.1.1 does not have at their defaults.
pub open spec fn v3_subscription_of(t: PbV3TopicSubscription) -> TopicSubscription {
    TopicSubscription {
        topic_filter: t.topic_filter,
        qos: t.qos as u8,
        no_local: false,
        retain_as_published: false,
        retain_handling: 0,
    }
}

/// The MQTT 3.1.1 protobuf form of CONNECT: protocol "MQTT" level 4, with an
/// empty user name or password where there is none; properties are not
/// carried.
pub fn v3_connect_to_pb(c: MqttConnect) -> (r: PbV3Connect)
    ensures
        r.client_id == c.client_id,
        r.protocol_name@ == "MQTT"@,
        r.protocol_version == 4,
        r.clean_session == c.clean_start,
        r.keep_alive == c.keep_alive as u32,
        r.username@ == (match c.username {
            Some(u) => u@,
            None => Seq::<char>::empty(),
        }),
        r.password@ == (match c.password {
            Some(p) => p@,
            None => Seq::<u8>::empty(),
        }),
        match (c.will, r.will) {
            (Some(w), Some(pw)) => pw.qos == w.qos as i32 && pw.retain == w.retain && pw.topic == w.topic
                && pw.payload == w.payload,
            (None, None) => true,
            _ => false,
        },
{
    let username = match c.username {
        Some(u) => u,
        None => String::new(),
    };
    let password = match c.password {
        Some(p) => p,
        None => Vec::new(),
    };
    let will = match c.will {
        Some(w) => Some(PbV3Will { qos: w.qos as i32, retain: w.retain, topic: w.topic, payload: w.payload }),
        None => None,
    };
    PbV3Connect {
        client_id: c.client_id,
        protocol_name: "MQTT".to_owned(),
        protocol_version: 4,
        clean_session: c.clean_start,
        keep_alive: c.keep_alive as u32,
        username,
        password,
        will,
    }
}

/// The CONNECT an MQTT 3.1.1 protobuf one stands for: an empty user name or
/// password is none, numbers are cut to their widths, and there are no
/// properties.
pub fn pb_v3_to_connect(c: PbV3Connect) -> (r: MqttConnect)
    ensures
        r.client_id == c.client_id,
        r.username == (if c.username@.len() == 0 { None } else { Some(c.username) }),
        r.password == (if c.password@.len() == 0 { None } else { Some(c.password) }),
        match (c.will, r.will) {
            (Some(pw), Some(w)) => w.qos == pw.qos as u8 && w.retain == pw.retain && w.topic == pw.topic
                && w.payload == pw.payload && w.properties@.len() == 0,
            (None, None) => true,
            _ => false,
        },
        r.keep_alive == c.keep_alive as u16,
        r.clean_start == c.clean_session,
        r.properties@.len() == 0,
{
    let username = if c.username.as_str().unicode_len() == 0 {
        None
    } else {
        Some(c.username)
    };
    let password = if c.password.len() == 0 {
        None
    } else {
        Some(c.password)
    };
    let will = match c.will {
        Some(w) => Some(Will { topic: w.topic, payload: w.payload, qos: w.qos as u8, retain: w.retain, properties: Vec::new() }),
        None => None,
    };
    MqttConnect {
        client_id: c.client_id,
        username,
        password,
        will,
        keep_alive: c.keep_alive as u16,
        clean_start: c.clean_session,
        properties: Vec::new(),
    }
}

/// The MQTT 3.1.1 protobuf form of CONNACK.
pub fn v3_connack_to_pb(c: MqttConnAck) -> (r: PbV3Connack)
    ensures
        r.session_present == c.session_present,
        r.return_code == c.reason_code as u32,
{
    PbV3Connack { session_present: c.session_present, return_code: c.reason_code as u32 }
}

/// The CONNACK an MQTT 3.1.1 protobuf one stands for.
pub fn pb_v3_to_connack(c: PbV3Connack) -> (r: MqttConnAck)
    ensures
        r.session_present == c.session_present,
        r.reason_code == c.return_code as u8,
        r.properties@.len() == 0,
{
    MqttConnAck { session_present: c.session_present, reason_code: c.return_code as u8, properties: Vec::new() }
}

/// The MQTT 3.1.1 protobuf form of PUBLISH: a message id of 0 where it has
/// no identifier.
pub fn v3_publish_to_pb(p: MqttPublish) -> (r: PbV3Publish)
    ensures
        r.topic == p.topic_name,
        r.payload == p.payload,
        r.qos == p.qos as i32,
        r.retain == p.retain,
        r.dup == p.dup,
        r.message_id == (match p.packet_id {
            Some(id) => id as u32,
            None => 0u32,
        }),
{
    let message_id: u32 = match p.packet_id {
        Some(id) => id as u32,
        None => 0,
    };
    PbV3Publish { topic: p.topic_name, payload: p.payload, qos: p.qos as i32, retain: p.retain, dup: p.dup, message_id }
}

/// The PUBLISH an MQTT 3.1.1 protobuf one stands for: a message id of 0 is
/// no identifier, and numbers are cut to their widths.
pub fn pb_v3_to_publish(p: PbV3Publish) -> (r: MqttPublish)
    ensures
        r.qos == p.qos as u8,
        r.topic_name == p.topic,
        r.packet_id == (if p.message_id == 0 { None } else { Some(p.message_id as u16) }),
        r.payload == p.payload,
        r.retain == p.retain,
        r.dup == p.dup,
        r.properties@.len() == 0,
{
    MqttPublish {
        qos: p.qos as u8,
        topic_name: p.topic,
        packet_id: if p.message_id == 0 {
            None
        } else {
            Some(p.message_id as u16)
        },
        payload: p.payload,
        retain: p.retain,
        dup: p.dup,
        properties: Vec::new(),
    }
}

/// The MQTT 3.1.1 protobuf form of PUBACK, PUBREC, PUBREL or PUBCOMP.
pub fn v3_ack_to_pb(a: MqttAck) -> (r: PbV3Ack)
    ensures
        r.message_id == a.packet_id as u32,
{
    PbV3Ack { message_id: a.packet_id as u32 }
}

/// The acknowledgement an MQTT 3.1.1 protobuf one stands for: reason code 0
/// and no properties.
pub fn pb_v3_to_ack(a: PbV3Ack) -> (r: MqttAck)
    ensures
        r.packet_id == a.message_id as u16,
        r.reason_code == 0,
        r.properties@.len() == 0,
{
    MqttAck { packet_id: a.message_id as u16, reason_code: 0, properties: Vec::new() }
}

/// The MQTT 3.1.1 protobuf form of UNSUBACK: its message id.
pub fn v3_unsuback_to_pb(a: MqttSubAck) -> (r: PbV3Ack)
    ensures
        r.message_id == a.packet_id as u32,
{
    PbV3Ack { message_id: a.packet_id as u32 }
}

/// The UNSUBACK an MQTT 3.1.1 protobuf one stands for.
pub fn pb_v3_to_unsuback(a: PbV3Ack) -> (r: MqttSubAck)
    ensures
        r.packet_id == a.message_id as u16,
        r.reason_codes@.len() == 0,
        r.properties@.len() == 0,
{
    MqttSubAck { packet_id: a.message_id as u16, reason_codes: Vec::new(), properties: Vec::new() }
}

/// The MQTT 3.1.1 protobuf form of SUBSCRIBE: each filter with its QoS.
pub fn v3_subscribe_to_pb(s: MqttSubscribe) -> (r: PbV3Subscribe)
    ensures
        r.message_id == s.packet_id as u32,
        r.subscriptions@ == s.subscriptions@.map_values(|t: TopicSubscription| pb_v3_subscription_of(t)),
{
    let mut rest = s.subscriptions;
    let ghost all = rest@;
    let ghost mut done: Seq<TopicSubscription> = seq![];
    let mut out: Vec<PbV3TopicSubscription> = Vec::new();
    while rest.len() > 0
        invariant
            all == done + rest@,
            out@ == done.map_values(|t: TopicSubscription| pb_v3_subscription_of(t)),
        decreases rest@.len(),
    {
        let t = rest.remove(0);
        let ghost g = t;
        out.push(PbV3TopicSubscription { topic_filter: t.topic_filter, qos: t.qos as u32 });
        proof {
            assert(done.push(g).map_values(|t: TopicSubscription| pb_v3_subscription_of(t)) =~= done.map_values(
                |t: TopicSubscription| pb_v3_subscription_of(t),
            ).push(pb_v3_subscription_of(g)));
            done = done.push(g);
        }
    }
    assert(done =~= all);
    PbV3Subscribe { message_id: s.packet_id as u32, subscriptions: out }
}

/// The SUBSCRIBE an MQTT 3.1.1 protobuf one stands for.
pub fn pb_v3_to_subscribe(s: PbV3Subscribe) -> (r: MqttSubscribe)
    ensures
        r.packet_id == s.message_id as u16,
        r.subscriptions@ == s.subscriptions@.map_values(|t: PbV3TopicSubscription| v3_subscription_of(t)),
        r.properties@.len() == 0,
{
    let mut rest = s.subscriptions;
    let ghost all = rest@;
    let ghost mut done: Seq<PbV3TopicSubscription> = seq![];
    let mut out: Vec<TopicSubscription> = Vec::new();
    while rest.len() > 0
        invariant
            all == done + rest@,
            out@ == done.map_values(|t: PbV3TopicSubscription| v3_subscription_of(t)),
        decreases rest@.len(),
    {
        let t = rest.remove(0);
        let ghost g = t;
        out.push(
            TopicSubscription {
                topic_filter: t.topic_filter,
                qos: t.qos as u8,
                no_local: false,
                retain_as_published: false,
                retain_handling: 0,
            },
        );
        proof {
            assert(done.push(g).map_values(|t: PbV3TopicSubscription| v3_subscription_of(t)) =~= done.map_values(
                |t: PbV3TopicSubscription| v3_subscription_of(t),
            ).push(v3_subscription_of(g)));
            done = done.push(g);
        }
    }
    assert(done =~= all);
    MqttSubscribe { packet_id: s.message_id as u16, subscriptions: out, properties: Vec::new() }
}

/// The MQTT 3.1.1 protobuf form of SUBACK.
pub fn v3_suback_to_pb(s: MqttSubAck) -> (r: PbV3Suback)
    ensures
        r.message_id == s.packet_id as u32,
        r.return_codes@ == s.reason_codes@.map_values(|c: u8| c as u32),
{
    let pb = suback_to_pb(s);
    PbV3Suback { message_id: pb.message_id, return_codes: pb.reason_codes }
}

/// The SUBACK an MQTT 3.1.1 protobuf one stands for.
pub fn pb_v3_to_suback(s: PbV3Suback) -> (r: MqttSubAck)
    ensures
        r.packet_id == s.message_id as u16,
        r.reason_codes@ == s.return_codes@.map_values(|c: u32| c as u8),
        r.properties@.len() == 0,
{
    pb_to_suback(PbSuback { message_id: s.message_id, reason_codes: s.return_codes, properties: Vec::new() })
}

/// The MQTT 3.1.1 protobuf form of UNSUBSCRIBE.
pub fn v3_unsubscribe_to_pb(u: MqttUnsubscribe) -> (r: PbV3Unsubscribe)
    ensures
        r.message_id == u.packet_id as u32,
        r.topic_filters == u.topics,
{
    PbV3Unsubscribe { message_id: u.packet_id as u32, topic_filters: u.topics }
}

/// The UNSUBSCRIBE an MQTT 3.1.1 protobuf one stands for.
pub fn pb_v3_to_unsubscribe(u: PbV3Unsubscribe) -> (r: MqttUnsubscribe)
    ensures
        r.packet_id == u.message_id as u16,
        r.topics == u.topic_filters,
        r.properties@.len() == 0,
{
    MqttUnsubscribe { packet_id: u.message_id as u16, topics: u.topic_filters, properties: Vec::new() }
}

} // verus!
