//! Decoding of MQTT control packets, with the acceptance relation the
//! decoded packets satisfy and the guarantee that every canonical encoding
//! decodes back to the packet it encodes.

use vstd::prelude::*;
use crate::codec::wire::{
    at, be16, bin_field, get_bin, get_bytes, get_str, get_u16, get_vbi, lemma_at_split, lemma_vbi_high_bits,
    lemma_vbi_len, str_field, str_ok, vbi, VBI_MAX, VbiRead,
};
use crate::codec::property::{get_properties, props_bytes, props_field, props_ok, views, Property, PropertyV};
use crate::codec::packet::{
    ack_body, connack_body, connect_body, connect_flags, connect_header, credentials_bytes, credentials_ok,
    fields_ok, first_byte, id_if_qos, packet_body, packet_bytes, packet_ok, props_if_v5, protocol_name,
    publish_body, reason_tail, sub_options, suback_body, subs_bytes, subs_ok, subscribe_body,
    topics_bytes, topics_ok, unsuback_body, unsubscribe_body, v5_props_ok, will_bytes, will_ok, AckV, ConnAckV,
    ConnectV, MqttAck, MqttConnAck, MqttConnect, MqttPacket, MqttPublish, MqttReason, MqttSubAck, MqttSubscribe,
    MqttUnsubscribe, PacketV, PublishV, ReasonV, SubAckV, SubscribeV, TopicSubscription, TopicSubscriptionV,
    UnsubscribeV, Will, WillV,
};

verus! {

/// Whether a packet keeps all its fields when encoded in the given version:
/// MQTT 3.1.1 has no reason codes, properties or subscription options but
/// the QoS, and no AUTH.
pub open spec fn representable(p: PacketV, version: u8) -> bool {
    match p {
        PacketV::Publish(x) => (x.qos == 0 ==> x.packet_id is None) && (version != 5 ==> x.properties.len() == 0),
        PacketV::PubAck(a) => version != 5 ==> a.reason_code == 0 && a.properties.len() == 0,
        PacketV::PubRec(a) => version != 5 ==> a.reason_code == 0 && a.properties.len() == 0,
        PacketV::PubRel(a) => version != 5 ==> a.reason_code == 0 && a.properties.len() == 0,
        PacketV::PubComp(a) => version != 5 ==> a.reason_code == 0 && a.properties.len() == 0,
        PacketV::ConnAck(c) => version != 5 ==> c.properties.len() == 0,
        PacketV::SubAck(s) => version != 5 ==> s.properties.len() == 0,
        PacketV::UnsubAck(s) => version != 5 ==> s.properties.len() == 0 && s.reason_codes.len() == 0,
        PacketV::PingReq => true,
        PacketV::PingResp => true,
        PacketV::Disconnect(r) => version != 5 ==> r.reason_code == 0 && r.properties.len() == 0,
        PacketV::Auth(_) => version == 5,
        PacketV::Unsubscribe(u) => version != 5 ==> u.properties.len() == 0,
        PacketV::Connect(c) => (version != 5 ==> c.properties.len() == 0) && will_representable(c.will, version),
        PacketV::Subscribe(x) => (version != 5 ==> x.properties.len() == 0) && subs_representable(x.subscriptions, version),
    }
}

/// The encodings MQTT 5 allows for a trailing reason code and property list:
/// the shortest one, the reason code alone, or both written out.
pub open spec fn tail_accepts(reason_code: u8, props: Seq<PropertyV>, tail: Seq<u8>) -> bool {
    &&& props_ok(props)
    &&& {
        ||| tail == reason_tail(reason_code, props)
        ||| (props.len() == 0 && tail == seq![reason_code])
        ||| tail == seq![reason_code] + props_field(props)
    }
}

/// The accepted bodies of PUBACK, PUBREC, PUBREL and PUBCOMP.
pub open spec fn ack_accepts(a: AckV, body: Seq<u8>, version: u8) -> bool {
    &&& body.len() >= 2
    &&& body.take(2) == be16(a.packet_id)
    &&& if version == 5 {
        tail_accepts(a.reason_code, a.properties, body.skip(2))
    } else {
        body.len() == 2 && a.reason_code == 0 && a.properties.len() == 0
    }
}

/// The accepted bodies of DISCONNECT and AUTH.
pub open spec fn reason_accepts(r: ReasonV, body: Seq<u8>, version: u8) -> bool {
    if version == 5 {
        tail_accepts(r.reason_code, r.properties, body)
    } else {
        body.len() == 0 && r.reason_code == 0 && r.properties.len() == 0
    }
}

/// Whether `body` is an accepted body of packet `p` in the given version.
pub open spec fn body_accepts(p: PacketV, body: Seq<u8>, version: u8) -> bool {
    &&& representable(p, version)
    &&& fields_ok(p, version)
    &&& match p {
        PacketV::PubAck(a) => ack_accepts(a, body, version),
        PacketV::PubRec(a) => ack_accepts(a, body, version),
        PacketV::PubRel(a) => ack_accepts(a, body, version),
        PacketV::PubComp(a) => ack_accepts(a, body, version),
        PacketV::Disconnect(r) => reason_accepts(r, body, version),
        PacketV::Auth(r) => reason_accepts(r, body, version),
        _ => body == packet_body(p, version),
    }
}

/// Reads the optional reason code and property list that end an MQTT 5
/// acknowledgement, DISCONNECT or AUTH body, in any of the forms allowed.
fn get_tail(buf: &[u8], pos: usize, end: usize) -> (r: Option<(u8, Vec<Property>)>)
    requires
        pos <= end <= buf@.len(),
    ensures
        r matches Some((code, ps)) ==> tail_accepts(code, views(ps@), buf@.subrange(pos as int, end as int)),
        forall|code: u8, ys: Seq<PropertyV>| #[trigger] tail_accepts(code, ys, buf@.subrange(pos as int, end as int))
            ==> (r matches Some((c, ps)) && c == code && views(ps@) == ys),
{
    let ghost t = buf@.subrange(pos as int, end as int);
    if pos == end {
        let ps: Vec<Property> = Vec::new();
        proof {
            assert(views(ps@) == Seq::<PropertyV>::empty());
            assert(props_bytes(Seq::<PropertyV>::empty()) == Seq::<u8>::empty());
            assert(t == Seq::<u8>::empty());
            assert forall|code: u8, ys: Seq<PropertyV>| #[trigger] tail_accepts(code, ys, t)
                implies code == 0 && ys == Seq::<PropertyV>::empty() by {
                if ys.len() != 0 {
                    assert(reason_tail(code, ys).len() >= 1);
                }
                assert((seq![code] + props_field(ys)).len() >= 1);
            }
        }
        return Some((0, ps));
    }
    let code = buf[pos];
    if pos + 1 == end {
        let ps: Vec<Property> = Vec::new();
        proof {
            assert(views(ps@) == Seq::<PropertyV>::empty());
            assert(props_bytes(Seq::<PropertyV>::empty()) == Seq::<u8>::empty());
            assert(t == seq![code]);
            assert forall|c: u8, ys: Seq<PropertyV>| #[trigger] tail_accepts(c, ys, t)
                implies c == code && ys == Seq::<PropertyV>::empty() by {
                lemma_vbi_len(props_bytes(ys).len() as u32);
                assert((seq![c] + props_field(ys)).len() >= 2);
                if ys.len() != 0 {
                    assert(reason_tail(c, ys).len() >= 2);
                } else if t == reason_tail(c, ys) {
                    assert(reason_tail(c, ys)[0] == c);
                } else {
                    assert(t == seq![c]);
                    assert(t[0] == c);
                }
            }
        }
        return Some((code, ps));
    }
    proof {
        assert forall|c: u8, ys: Seq<PropertyV>| #[trigger] tail_accepts(c, ys, t)
            implies c == code && props_ok(ys) && at(buf@, pos + 1, end as int, props_field(ys))
            && pos + 1 + props_field(ys).len() == end by {
            assert(t.len() >= 2);
            assert(t == seq![c] + props_field(ys)) by {
                if ys.len() == 0 && t == reason_tail(c, ys) {
                    assert(reason_tail(c, ys).len() <= 1);
                }
            }
            assert((seq![c] + props_field(ys))[0] == c);
            assert(t[0] == buf@[pos as int]);
            assert(buf@.subrange(pos + 1, end as int) == t.skip(1));
            assert((seq![c] + props_field(ys)).skip(1) == props_field(ys));
        }
    }
    match get_properties(buf, pos + 1, end) {
        Some((ps, e)) => {
            if e != end {
                return None;
            }
            proof {
                assert(t == seq![code] + buf@.subrange(pos + 1, end as int));
            }
            Some((code, ps))
        },
        None => None,
    }
}

fn get_ack_body(buf: &[u8], pos: usize, end: usize, version: u8) -> (r: Option<MqttAck>)
    requires
        pos <= end <= buf@.len(),
    ensures
        r matches Some(a) ==> ack_accepts(a@, buf@.subrange(pos as int, end as int), version),
        forall|q: AckV| #[trigger] ack_accepts(q, buf@.subrange(pos as int, end as int), version)
            ==> (r matches Some(a) && a@ == q),
{
    let ghost body = buf@.subrange(pos as int, end as int);
    let (id, p1) = match get_u16(buf, pos, end) {
        Some(x) => x,
        None => return None,
    };
    proof {
        assert(body.take(2) == buf@.subrange(pos as int, p1 as int));
        assert(body.skip(2) == buf@.subrange(p1 as int, end as int));
        assert forall|q: AckV| #[trigger] ack_accepts(q, body, version) implies q.packet_id == id by {
            assert(at(buf@, pos as int, end as int, be16(q.packet_id)));
        }
    }
    if version == 5 {
        match get_tail(buf, p1, end) {
            Some((code, ps)) => {
                let a = MqttAck { packet_id: id, reason_code: code, properties: ps };
                proof {
                    assert forall|q: AckV| #[trigger] ack_accepts(q, body, version) implies a@ == q by {
                        assert(tail_accepts(q.reason_code, q.properties, buf@.subrange(p1 as int, end as int)));
                    }
                }
                Some(a)
            },
            None => {
                proof {
                    assert forall|q: AckV| #[trigger] ack_accepts(q, body, version) implies false by {
                        assert(tail_accepts(q.reason_code, q.properties, buf@.subrange(p1 as int, end as int)));
                    }
                }
                None
            },
        }
    } else {
        if p1 != end {
            return None;
        }
        let ps: Vec<Property> = Vec::new();
        assert(views(ps@) == Seq::<PropertyV>::empty());
        let a = MqttAck { packet_id: id, reason_code: 0, properties: ps };
        proof {
            assert forall|q: AckV| #[trigger] ack_accepts(q, body, version) implies a@ == q by {
                assert(q.properties == Seq::<PropertyV>::empty());
            }
            assert(body == body.take(2));
        }
        Some(a)
    }
}

fn get_reason_body(buf: &[u8], pos: usize, end: usize, version: u8) -> (r: Option<MqttReason>)
    requires
        pos <= end <= buf@.len(),
    ensures
        r matches Some(x) ==> reason_accepts(x@, buf@.subrange(pos as int, end as int), version),
        forall|q: ReasonV| #[trigger] reason_accepts(q, buf@.subrange(pos as int, end as int), version)
            ==> (r matches Some(x) && x@ == q),
{
    if version == 5 {
        match get_tail(buf, pos, end) {
            Some((code, ps)) => Some(MqttReason { reason_code: code, properties: ps }),
            None => None,
        }
    } else {
        if pos != end {
            return None;
        }
        let ps: Vec<Property> = Vec::new();
        assert(views(ps@) == Seq::<PropertyV>::empty());
        assert(buf@.subrange(pos as int, end as int).len() == 0);
        let x = MqttReason { reason_code: 0, properties: ps };
        proof {
            assert forall|q: ReasonV| #[trigger] reason_accepts(q, buf@.subrange(pos as int, end as int), version)
                implies x@ == q by {
                assert(q.properties == Seq::<PropertyV>::empty());
            }
        }
        Some(x)
    }
}

/// Every canonical encoding of a packet is an accepted one.
proof fn lemma_canonical_accepted(q: PacketV, version: u8)
    requires
        representable(q, version),
        fields_ok(q, version),
    ensures
        body_accepts(q, packet_body(q, version), version),
{
    match q {
        PacketV::PubAck(a) => lemma_canonical_ack(a, version),
        PacketV::PubRec(a) => lemma_canonical_ack(a, version),
        PacketV::PubRel(a) => lemma_canonical_ack(a, version),
        PacketV::PubComp(a) => lemma_canonical_ack(a, version),
        PacketV::Disconnect(r) => {
            if version != 5 {
                assert(r.properties == Seq::<PropertyV>::empty());
            }
        },
        _ => {},
    }
}

proof fn lemma_canonical_ack(a: AckV, version: u8)
    requires
        version == 5 ==> props_ok(a.properties),
        version != 5 ==> a.reason_code == 0 && a.properties.len() == 0,
    ensures
        ack_accepts(a, ack_body(a, version), version),
{
    let b = ack_body(a, version);
    assert(b.take(2) == be16(a.packet_id));
    if version == 5 {
        assert(b.skip(2) == reason_tail(a.reason_code, a.properties));
    }
}

proof fn lemma_sub_at(buf: Seq<u8>, pos: int, end: int, pat: Seq<u8>)
    requires
        0 <= pos <= end <= buf.len(),
        buf.subrange(pos, end) == pat,
    ensures
        at(buf, pos, end, pat),
        pos + pat.len() == end,
{
}

fn get_connack_body(buf: &[u8], pos: usize, end: usize, version: u8) -> (r: Option<MqttConnAck>)
    requires
        pos <= end <= buf@.len(),
    ensures
        r matches Some(c) ==> buf@.subrange(pos as int, end as int) == connack_body(c@, version)
            && (version == 5 ==> props_ok(c@.properties)) && (version != 5 ==> c@.properties.len() == 0),
        forall|q: ConnAckV| (version == 5 ==> props_ok(q.properties)) && (version != 5 ==> q.properties.len() == 0)
            && buf@.subrange(pos as int, end as int) == #[trigger] connack_body(q, version)
            ==> (r matches Some(c) && c@ == q),
{
    proof {
        assert forall|q: ConnAckV| buf@.subrange(pos as int, end as int) == #[trigger] connack_body(q, version)
            implies pos + 2 <= end && buf@[pos as int] == (if q.session_present { 1u8 } else { 0u8 })
            && buf@[pos + 1] == q.reason_code && buf@.subrange(pos + 2, end as int) == props_if_v5(q.properties, version) by {
            let b = buf@.subrange(pos as int, end as int);
            assert(b[0] == connack_body(q, version)[0]);
            assert(b[1] == connack_body(q, version)[1]);
            assert(b.skip(2) == buf@.subrange(pos + 2, end as int));
            assert(connack_body(q, version).skip(2) == props_if_v5(q.properties, version));
        }
    }
    if end - pos < 2 {
        return None;
    }
    let flags = buf[pos];
    let code = buf[pos + 1];
    if flags > 1 {
        return None;
    }
    let p2 = pos + 2;
    let ps: Vec<Property> = if version == 5 {
        proof {
            assert forall|q: ConnAckV| props_ok(q.properties) && buf@.subrange(pos as int, end as int)
                == #[trigger] connack_body(q, version) implies at(buf@, p2 as int, end as int, props_field(q.properties)) by {
                lemma_sub_at(buf@, p2 as int, end as int, props_field(q.properties));
            }
        }
        match get_properties(buf, p2, end) {
            Some((ps, e)) => {
                if e != end {
                    return None;
                }
                ps
            },
            None => return None,
        }
    } else {
        if p2 != end {
            return None;
        }
        let ps: Vec<Property> = Vec::new();
        assert(views(ps@) == Seq::<PropertyV>::empty());
        ps
    };
    let c = MqttConnAck { session_present: flags == 1, reason_code: code, properties: ps };
    proof {
        let b = buf@.subrange(pos as int, end as int);
        assert(b == seq![flags, code] + buf@.subrange(p2 as int, end as int));
        if version != 5 {
            assert(buf@.subrange(p2 as int, end as int) == Seq::<u8>::empty());
        }
        assert(b == connack_body(c@, version));
        assert forall|q: ConnAckV| (version == 5 ==> props_ok(q.properties)) && (version != 5 ==> q.properties.len() == 0)
            && buf@.subrange(pos as int, end as int) == #[trigger] connack_body(q, version) implies c@ == q by {
            if version != 5 {
                assert(q.properties == Seq::<PropertyV>::empty());
            }
        }
    }
    Some(c)
}

fn get_suback_body(buf: &[u8], pos: usize, end: usize, version: u8) -> (r: Option<MqttSubAck>)
    requires
        pos <= end <= buf@.len(),
    ensures
        r matches Some(x) ==> buf@.subrange(pos as int, end as int) == suback_body(x@, version)
            && (version == 5 ==> props_ok(x@.properties)) && (version != 5 ==> x@.properties.len() == 0),
        forall|q: SubAckV| (version == 5 ==> props_ok(q.properties)) && (version != 5 ==> q.properties.len() == 0)
            && buf@.subrange(pos as int, end as int) == #[trigger] suback_body(q, version)
            ==> (r matches Some(x) && x@ == q),
{
    let (id, p1) = match get_u16(buf, pos, end) {
        Some(v) => v,
        None => {
            proof {
                assert forall|q: SubAckV| buf@.subrange(pos as int, end as int) == #[trigger] suback_body(q, version)
                    implies false by {
                    assert(suback_body(q, version).len() >= 2);
                }
            }
            return None;
        },
    };
    proof {
        assert forall|q: SubAckV| buf@.subrange(pos as int, end as int) == #[trigger] suback_body(q, version)
            implies q.packet_id == id && buf@.subrange(p1 as int, end as int) == props_if_v5(q.properties, version)
            + q.reason_codes by {
            lemma_sub_at(buf@, pos as int, end as int, suback_body(q, version));
            assert(suback_body(q, version) == be16(q.packet_id) + (props_if_v5(q.properties, version) + q.reason_codes));
            lemma_at_split(buf@, pos as int, end as int, be16(q.packet_id), props_if_v5(q.properties, version) + q.reason_codes);
        }
    }
    let (ps, p2) = if version == 5 {
        proof {
            assert forall|q: SubAckV| props_ok(q.properties) && buf@.subrange(pos as int, end as int)
                == #[trigger] suback_body(q, version) implies at(buf@, p1 as int, end as int, props_field(q.properties))
                && p1 + props_field(q.properties).len() + q.reason_codes.len() == end by {
                lemma_sub_at(buf@, p1 as int, end as int, props_field(q.properties) + q.reason_codes);
                lemma_at_split(buf@, p1 as int, end as int, props_field(q.properties), q.reason_codes);
            }
        }
        match get_properties(buf, p1, end) {
            Some(x) => x,
            None => return None,
        }
    } else {
        let ps: Vec<Property> = Vec::new();
        assert(views(ps@) == Seq::<PropertyV>::empty());
        (ps, p1)
    };
    let (codes, e) = match get_bytes(buf, p2, end, end - p2) {
        Some(x) => x,
        None => return None,
    };
    let x = MqttSubAck { packet_id: id, reason_codes: codes, properties: ps };
    proof {
        let b = buf@.subrange(pos as int, end as int);
        assert(b == buf@.subrange(pos as int, p1 as int) + buf@.subrange(p1 as int, p2 as int) + buf@.subrange(p2 as int, end as int));
        if version == 5 {
            assert(buf@.subrange(p1 as int, p2 as int) == props_field(views(ps@)));
        } else {
            assert(buf@.subrange(p1 as int, p2 as int) == Seq::<u8>::empty());
        }
        assert(b == suback_body(x@, version));
        assert forall|q: SubAckV| (version == 5 ==> props_ok(q.properties)) && (version != 5 ==> q.properties.len() == 0)
            && buf@.subrange(pos as int, end as int) == #[trigger] suback_body(q, version) implies x@ == q by {
            if version != 5 {
                assert(q.properties == Seq::<PropertyV>::empty());
                assert(buf@.subrange(p1 as int, end as int) == q.reason_codes);
            } else {
                lemma_sub_at(buf@, p1 as int, end as int, props_field(q.properties) + q.reason_codes);
                lemma_at_split(buf@, p1 as int, end as int, props_field(q.properties), q.reason_codes);
            }
        }
    }
    Some(x)
}

fn get_unsuback_body(buf: &[u8], pos: usize, end: usize, version: u8) -> (r: Option<MqttSubAck>)
    requires
        pos <= end <= buf@.len(),
    ensures
        r matches Some(x) ==> buf@.subrange(pos as int, end as int) == unsuback_body(x@, version)
            && (version == 5 ==> props_ok(x@.properties)) && (version != 5 ==> x@.properties.len() == 0
            && x@.reason_codes.len() == 0),
        forall|q: SubAckV| (version == 5 ==> props_ok(q.properties)) && (version != 5 ==> q.properties.len() == 0
            && q.reason_codes.len() == 0) && buf@.subrange(pos as int, end as int) == #[trigger] unsuback_body(q, version)
            ==> (r matches Some(x) && x@ == q),
{
    if version == 5 {
        let r = get_suback_body(buf, pos, end, version);
        proof {
            assert forall|q: SubAckV| props_ok(q.properties) && buf@.subrange(pos as int, end as int)
                == #[trigger] unsuback_body(q, version) implies (r matches Some(x) && x@ == q) by {
                assert(unsuback_body(q, version) == suback_body(q, version));
            }
        }
        r
    } else {
        let (id, p1) = match get_u16(buf, pos, end) {
            Some(v) => v,
            None => {
                proof {
                    assert forall|q: SubAckV| buf@.subrange(pos as int, end as int) == #[trigger] unsuback_body(q, version)
                        implies false by {
                        assert(unsuback_body(q, version).len() == 2);
                    }
                }
                return None;
            },
        };
        if p1 != end {
            proof {
                assert forall|q: SubAckV| buf@.subrange(pos as int, end as int) == #[trigger] unsuback_body(q, version)
                    implies false by {
                    assert(unsuback_body(q, version).len() == 2);
                }
            }
            return None;
        }
        let ps: Vec<Property> = Vec::new();
        let codes: Vec<u8> = Vec::new();
        assert(views(ps@) == Seq::<PropertyV>::empty());
        let x = MqttSubAck { packet_id: id, reason_codes: codes, properties: ps };
        proof {
            assert(buf@.subrange(pos as int, end as int) == unsuback_body(x@, version));
            assert forall|q: SubAckV| (version != 5 ==> q.properties.len() == 0 && q.reason_codes.len() == 0)
                && buf@.subrange(pos as int, end as int) == #[trigger] unsuback_body(q, version) implies x@ == q by {
                assert(q.properties == Seq::<PropertyV>::empty());
                assert(q.reason_codes == Seq::<u8>::empty());
                lemma_sub_at(buf@, pos as int, end as int, be16(q.packet_id));
            }
        }
        Some(x)
    }
}


/// The fields of a PUBLISH that its first byte carries, and the constraints
/// its fields meet in the given version.
pub open spec fn publish_fields_ok(x: PublishV, version: u8) -> bool {
    &&& str_ok(x.topic_name)
    &&& x.qos <= 2
    &&& (x.qos > 0 <==> x.packet_id is Some)
    &&& (version == 5 ==> props_ok(x.properties))
    &&& (version != 5 ==> x.properties.len() == 0)
}

proof fn lemma_publish_split(buf: Seq<u8>, pos: int, end: int, q: PublishV, version: u8)
    requires
        0 <= pos <= end <= buf.len(),
        buf.subrange(pos, end) == publish_body(q, version),
    ensures
        at(buf, pos, end, str_field(q.topic_name)),
        at(buf, pos + str_field(q.topic_name).len(), end, id_if_qos(q.qos, q.packet_id)),
        at(buf, pos + str_field(q.topic_name).len() + id_if_qos(q.qos, q.packet_id).len(), end,
            props_if_v5(q.properties, version)),
        buf.subrange(pos + str_field(q.topic_name).len() + id_if_qos(q.qos, q.packet_id).len()
            + props_if_v5(q.properties, version).len(), end) == q.payload,
{
    let a = str_field(q.topic_name);
    let b = id_if_qos(q.qos, q.packet_id);
    let c = props_if_v5(q.properties, version);
    let d = q.payload;
    lemma_sub_at(buf, pos, end, ((a + b) + c) + d);
    lemma_at_split(buf, pos, end, (a + b) + c, d);
    lemma_at_split(buf, pos, end, a + b, c);
    lemma_at_split(buf, pos, end, a, b);
}

fn get_publish_body(buf: &[u8], pos: usize, end: usize, version: u8, qos: u8, dup: bool, retain: bool)
    -> (r: Option<MqttPublish>)
    requires
        pos <= end <= buf@.len(),
        qos <= 2,
    ensures
        r matches Some(x) ==> x@.qos == qos && x@.dup == dup && x@.retain == retain
            && publish_fields_ok(x@, version) && buf@.subrange(pos as int, end as int) == publish_body(x@, version),
        forall|q: PublishV| q.qos == qos && q.dup == dup && q.retain == retain && publish_fields_ok(q, version)
            && buf@.subrange(pos as int, end as int) == #[trigger] publish_body(q, version)
            ==> (r matches Some(x) && x@ == q),
{
    proof {
        assert forall|q: PublishV| buf@.subrange(pos as int, end as int) == #[trigger] publish_body(q, version)
            implies at(buf@, pos as int, end as int, str_field(q.topic_name)) by {
            lemma_publish_split(buf@, pos as int, end as int, q, version);
        }
    }
    let (topic, p1) = match get_str(buf, pos, end) {
        Some(x) => x,
        None => return None,
    };
    let (packet_id, p2): (Option<u16>, usize) = if qos > 0 {
        proof {
            assert forall|q: PublishV| q.qos == qos && publish_fields_ok(q, version)
                && buf@.subrange(pos as int, end as int) == #[trigger] publish_body(q, version)
                implies at(buf@, p1 as int, end as int, be16(q.packet_id->0)) by {
                lemma_publish_split(buf@, pos as int, end as int, q, version);
            }
        }
        match get_u16(buf, p1, end) {
            Some((id, e1)) => {
                assert(at(buf@, p1 as int, end as int, be16(id)));
                assert(id_if_qos(qos, Some(id)) == be16(id));
                (Some(id), e1)
            },
            None => return None,
        }
    } else {
        assert(buf@.subrange(p1 as int, p1 as int) == id_if_qos(qos, None));
        (None, p1)
    };
    let ghost idb = id_if_qos(qos, packet_id);
    assert(p2 == p1 + idb.len());
    assert(at(buf@, p1 as int, end as int, idb));
    let (props, p3) = if version == 5 {
        proof {
            assert forall|q: PublishV| q.qos == qos && publish_fields_ok(q, version)
                && buf@.subrange(pos as int, end as int) == #[trigger] publish_body(q, version)
                implies at(buf@, p2 as int, end as int, props_field(q.properties)) by {
                lemma_publish_split(buf@, pos as int, end as int, q, version);
            }
        }
        match get_properties(buf, p2, end) {
            Some((ps, e2)) => {
                assert(at(buf@, p2 as int, end as int, props_field(views(ps@))));
                assert(props_if_v5(views(ps@), version) == props_field(views(ps@)));
                (ps, e2)
            },
            None => return None,
        }
    } else {
        let ps: Vec<Property> = Vec::new();
        assert(views(ps@) == Seq::<PropertyV>::empty());
        assert(buf@.subrange(p2 as int, p2 as int) == props_if_v5(views(ps@), version));
        (ps, p2)
    };
    let ghost pb = props_if_v5(views(props@), version);
    assert(p3 == p2 + pb.len() && at(buf@, p2 as int, end as int, pb));
    let (payload, e) = match get_bytes(buf, p3, end, end - p3) {
        Some(x) => x,
        None => return None,
    };
    let x = MqttPublish { qos, topic_name: topic, packet_id, payload, retain, dup, properties: props };
    proof {
        let sb = str_field(x@.topic_name);
        assert(buf@.subrange(pos as int, end as int) == buf@.subrange(pos as int, p1 as int)
            + buf@.subrange(p1 as int, p2 as int) + buf@.subrange(p2 as int, p3 as int)
            + buf@.subrange(p3 as int, end as int));
        assert(buf@.subrange(pos as int, p1 as int) == sb);
        assert(buf@.subrange(p1 as int, p2 as int) == idb);
        assert(buf@.subrange(p2 as int, p3 as int) == pb);
        assert(buf@.subrange(pos as int, end as int) == publish_body(x@, version));
        assert forall|q: PublishV| q.qos == qos && q.dup == dup && q.retain == retain && publish_fields_ok(q, version)
            && buf@.subrange(pos as int, end as int) == #[trigger] publish_body(q, version) implies x@ == q by {
            lemma_publish_split(buf@, pos as int, end as int, q, version);
            if version != 5 {
                assert(q.properties == Seq::<PropertyV>::empty());
            }
        }
    }
    Some(x)
}


/// The PUBLISH first byte with the given flags.
proof fn lemma_publish_first_byte(b: u8, d: u8, q: u8, r: u8)
    requires
        d <= 1,
        q <= 2,
        r <= 1,
    ensures
        b == 0x30 + d * 8 + q * 2 + r <==> (b >> 4u8 == 3 && (b >> 1u8) & 3 == q && (b & 8 != 0) == (d == 1)
            && (b & 1 != 0) == (r == 1)),
{
    assert(b == 0x30 + d * 8 + q * 2 + r <==> (b >> 4u8 == 3 && (b >> 1u8) & 3 == q && (b & 8 != 0) == (d == 1)
        && (b & 1 != 0) == (r == 1))) by (bit_vector)
        requires
            d <= 1,
            q <= 2,
            r <= 1,
    ;
}

/// The first byte of a PUBLISH packet determines its QoS, DUP and RETAIN fields.
proof fn lemma_publish_byte_fields(b0: u8, x: PublishV)
    requires
        x.qos <= 2,
        first_byte(PacketV::Publish(x)) == b0,
    ensures
        b0 >> 4u8 == 3,
        (b0 >> 1u8) & 3 == x.qos,
        (b0 & 8 != 0) == x.dup,
        (b0 & 1 != 0) == x.retain,
{
    lemma_publish_first_byte(b0, if x.dup { 1 } else { 0 }, x.qos, if x.retain { 1 } else { 0 });
}

/// Decodes the body of a packet whose first byte is `b0`.
fn decode_body(buf: &[u8], pos: usize, end: usize, b0: u8, version: u8) -> (r: Option<MqttPacket>)
    requires
        pos <= end <= buf@.len(),
    ensures
        r matches Some(p) ==> first_byte(p@) == b0 && body_accepts(p@, buf@.subrange(pos as int, end as int), version),
        forall|q: PacketV| first_byte(q) == b0 && #[trigger] body_accepts(q, buf@.subrange(pos as int, end as int), version)
            ==> (r matches Some(p) && p@ == q),
{
    let ghost body = buf@.subrange(pos as int, end as int);
    assert(b0 >> 4u8 == 3 <==> 0x30 <= b0 <= 0x3F) by (bit_vector);
    if b0 >> 4u8 == 3 {
        let qos = (b0 >> 1u8) & 3;
        assert(qos <= 3) by (bit_vector)
            requires
                qos == (b0 >> 1u8) & 3,
        ;
        proof {
            assert forall|q: PacketV| body_accepts(q, body, version) && first_byte(q) == b0
                implies q is Publish && q->Publish_0.qos == qos && q->Publish_0.dup == (b0 & 8 != 0)
                && q->Publish_0.retain == (b0 & 1 != 0) by {
                if q is Publish {
                    lemma_publish_byte_fields(b0, q->Publish_0);
                }
            }
        }
        if qos == 3 {
            return None;
        }
        let dup = b0 & 8 != 0;
        let retain = b0 & 1 != 0;
        let r = get_publish_body(buf, pos, end, version, qos, dup, retain);
        match r {
            Some(x) => {
                proof {
                    lemma_publish_first_byte(b0, if dup { 1 } else { 0 }, qos, if retain { 1 } else { 0 });
                }
                Some(MqttPacket::Publish(x))
            },
            None => None,
        }
    } else if b0 == 0x10 {
        match get_connect_body(buf, pos, end, version) {
            Some(x) => Some(MqttPacket::Connect(x)),
            None => None,
        }
    } else if b0 == 0x20 {
        match get_connack_body(buf, pos, end, version) {
            Some(c) => Some(MqttPacket::ConnAck(c)),
            None => None,
        }
    } else if b0 == 0x40 {
        match get_ack_body(buf, pos, end, version) {
            Some(a) => Some(MqttPacket::PubAck(a)),
            None => None,
        }
    } else if b0 == 0x50 {
        match get_ack_body(buf, pos, end, version) {
            Some(a) => Some(MqttPacket::PubRec(a)),
            None => None,
        }
    } else if b0 == 0x62 {
        match get_ack_body(buf, pos, end, version) {
            Some(a) => Some(MqttPacket::PubRel(a)),
            None => None,
        }
    } else if b0 == 0x70 {
        match get_ack_body(buf, pos, end, version) {
            Some(a) => Some(MqttPacket::PubComp(a)),
            None => None,
        }
    } else if b0 == 0x90 {
        match get_suback_body(buf, pos, end, version) {
            Some(x) => Some(MqttPacket::SubAck(x)),
            None => None,
        }
    } else if b0 == 0xB0 {
        match get_unsuback_body(buf, pos, end, version) {
            Some(x) => Some(MqttPacket::UnsubAck(x)),
            None => None,
        }
    } else if b0 == 0x82 {
        match get_subscribe_body(buf, pos, end, version) {
            Some(x) => Some(MqttPacket::Subscribe(x)),
            None => None,
        }
    } else if b0 == 0xA2 {
        match get_unsubscribe_body(buf, pos, end, version) {
            Some(x) => Some(MqttPacket::Unsubscribe(x)),
            None => None,
        }
    } else if b0 == 0xC0 {
        if pos == end {
            assert(body == Seq::<u8>::empty());
            Some(MqttPacket::PingReq)
        } else {
            None
        }
    } else if b0 == 0xD0 {
        if pos == end {
            assert(body == Seq::<u8>::empty());
            Some(MqttPacket::PingResp)
        } else {
            None
        }
    } else if b0 == 0xE0 {
        match get_reason_body(buf, pos, end, version) {
            Some(x) => Some(MqttPacket::Disconnect(x)),
            None => None,
        }
    } else if b0 == 0xF0 && version == 5 {
        match get_reason_body(buf, pos, end, version) {
            Some(x) => Some(MqttPacket::Auth(x)),
            None => None,
        }
    } else {
        None
    }
}


/// The result of reading one packet from the front of a buffer.
#[derive(Debug, Clone, PartialEq)]
pub enum Decoded {
    /// A packet and the number of bytes its frame takes.
    Packet(MqttPacket, usize),
    /// The buffer holds only the beginning of a frame.
    Incomplete,
    /// The bytes cannot begin a packet this decoder reads.
    Malformed,
}

/// Whether `frame` is an accepted encoding of packet `p`: its first byte,
/// the Remaining Length, and an accepted body of that length.
pub open spec fn frame_accepts(p: PacketV, frame: Seq<u8>, version: u8) -> bool {
    exists|body: Seq<u8>| #[trigger] body_accepts(p, body, version) && body.len() <= VBI_MAX
        && frame == seq![first_byte(p)] + vbi(body.len() as u32) + body
}

/// Whether `buf` is cut inside the Remaining Length field.
pub open spec fn header_cut(buf: Seq<u8>) -> bool {
    buf.len() < 5 && forall|k: int| 1 <= k < buf.len() ==> #[trigger] buf[k] >= 128
}

/// Whether `buf` announces a frame longer than itself.
pub open spec fn frame_cut(buf: Seq<u8>) -> bool {
    exists|x: u32| x <= VBI_MAX && #[trigger] at(buf, 1, buf.len() as int, vbi(x))
        && buf.len() < 1 + vbi(x).len() + x
}

/// Reads the packet that `buf` begins with.
///
/// A packet comes out exactly when `buf` begins with an accepted frame, and
/// it is the packet of that frame; `Incomplete` comes out exactly when `buf`
/// holds only the beginning of a frame (so every proper prefix of an
/// encoding is `Incomplete`); `Malformed` otherwise. Every canonical
/// encoding of a packet that fits its version decodes to that packet.
pub fn decode_packet(buf: &[u8], version: u8) -> (r: Decoded)
    ensures
        r matches Decoded::Packet(p, n) ==> 0 < n <= buf@.len() && frame_accepts(p@, buf@.take(n as int), version),
        forall|q: PacketV, n: int| 0 < n <= buf@.len() && #[trigger] frame_accepts(q, buf@.take(n), version)
            ==> (r matches Decoded::Packet(p, m) && p@ == q && m == n),
        forall|q: PacketV| representable(q, version) && packet_ok(q, version)
            && #[trigger] packet_bytes(q, version).len() <= buf@.len()
            && buf@.take(packet_bytes(q, version).len() as int) == packet_bytes(q, version)
            ==> (r matches Decoded::Packet(p, n) && p@ == q && n == packet_bytes(q, version).len()),
        forall|q: PacketV| packet_ok(q, version) && buf@.len() < #[trigger] packet_bytes(q, version).len()
            && buf@ == packet_bytes(q, version).take(buf@.len() as int) ==> r is Incomplete,
        r is Incomplete <==> (buf@.len() == 0 || header_cut(buf@) || frame_cut(buf@)),
{
    let len = buf.len();
    if len == 0 {
        proof {
            assert forall|q: PacketV, n: int| 0 < n <= buf@.len() && #[trigger] frame_accepts(q, buf@.take(n), version)
                implies false by {
            }
        }
        return Decoded::Incomplete;
    }
    let b0 = buf[0];
    proof {
        assert forall|q: PacketV| packet_ok(q, version) && #[trigger] packet_bytes(q, version).len() <= buf@.len()
            && buf@.take(packet_bytes(q, version).len() as int) == packet_bytes(q, version)
            implies b0 == first_byte(q) && at(buf@, 1, len as int, vbi(packet_body(q, version).len() as u32)) by {
            lemma_frame_parts(buf@, q, version, packet_bytes(q, version).len() as int);
        }
        assert forall|q: PacketV| packet_ok(q, version) && buf@.len() < #[trigger] packet_bytes(q, version).len()
            && buf@ == packet_bytes(q, version).take(buf@.len() as int)
            implies b0 == first_byte(q) && (at(buf@, 1, len as int, vbi(packet_body(q, version).len() as u32))
            || (len - 1 < 4 && forall|k: int| 1 <= k < len ==> #[trigger] buf@[k] >= 128)) by {
            lemma_prefix_parts(buf@, q, version);
        }
        assert forall|q: PacketV, n: int| 0 < n <= buf@.len() && #[trigger] frame_accepts(q, buf@.take(n), version)
            implies accepted_frame_parts(buf@, q, n, version) by {
            lemma_accepted_frame(buf@, q, n, version);
        }
    }
    let (rem, h) = match get_vbi(buf, 1, len) {
        VbiRead::Value(x, e) => (x, e),
        VbiRead::Incomplete => {
            proof {
                assert(header_cut(buf@));
            }
            return Decoded::Incomplete;
        },
        VbiRead::Malformed => {
            proof {
                assert(!header_cut(buf@));
                assert(!frame_cut(buf@));
            }
            return Decoded::Malformed;
        },
    };
    if len - h < rem as usize {
        proof {
            assert(frame_cut(buf@));
            assert forall|q: PacketV| representable(q, version) && packet_ok(q, version)
                && #[trigger] packet_bytes(q, version).len() <= buf@.len()
                && buf@.take(packet_bytes(q, version).len() as int) == packet_bytes(q, version) implies false by {
                lemma_frame_parts(buf@, q, version, packet_bytes(q, version).len() as int);
            }
        }
        return Decoded::Incomplete;
    }
    let n = h + rem as usize;
    proof {
        assert(!frame_cut(buf@));
        assert(!header_cut(buf@)) by {
            if header_cut(buf@) {
                lemma_vbi_high_bits(rem, vbi(rem).len() - 1);
                assert(buf@[h - 1] == vbi(rem)[vbi(rem).len() - 1]);
                lemma_vbi_last_byte(rem);
            }
        }
        assert forall|q: PacketV| packet_ok(q, version) && buf@.len() < #[trigger] packet_bytes(q, version).len()
            && buf@ == packet_bytes(q, version).take(buf@.len() as int) implies false by {
            lemma_prefix_parts(buf@, q, version);
        }
        assert forall|q: PacketV| representable(q, version) && packet_ok(q, version)
            && #[trigger] packet_bytes(q, version).len() <= buf@.len()
            && buf@.take(packet_bytes(q, version).len() as int) == packet_bytes(q, version)
            implies n == packet_bytes(q, version).len() && b0 == first_byte(q)
            && body_accepts(q, buf@.subrange(h as int, n as int), version) by {
            lemma_frame_parts(buf@, q, version, packet_bytes(q, version).len() as int);
            lemma_canonical_accepted(q, version);
        }
        assert forall|q: PacketV, m: int| 0 < m <= buf@.len() && #[trigger] frame_accepts(q, buf@.take(m), version)
            implies m == n && b0 == first_byte(q) && body_accepts(q, buf@.subrange(h as int, n as int), version) by {
            assert(accepted_frame_parts(buf@, q, m, version));
        }
    }
    match decode_body(buf, h, n, b0, version) {
        Some(p) => {
            proof {
                let body = buf@.subrange(h as int, n as int);
                assert(buf@.take(n as int) == seq![b0] + buf@.subrange(1, h as int) + body);
                assert(buf@.subrange(1, h as int) == vbi(rem));
                assert(body.len() == rem);
                assert(body_accepts(p@, body, version));
            }
            Decoded::Packet(p, n)
        },
        None => Decoded::Malformed,
    }
}

/// What a buffer whose first `n` bytes are an accepted frame of `q` holds.
pub open spec fn accepted_frame_parts(buf: Seq<u8>, q: PacketV, n: int, version: u8) -> bool {
    exists|body: Seq<u8>| #[trigger] body_accepts(q, body, version) && body.len() <= VBI_MAX && buf[0] == first_byte(q)
        && at(buf, 1, buf.len() as int, vbi(body.len() as u32)) && n == 1 + vbi(body.len() as u32).len() + body.len()
        && buf.subrange(1 + vbi(body.len() as u32).len() as int, n) == body
}

proof fn lemma_accepted_frame(buf: Seq<u8>, q: PacketV, n: int, version: u8)
    requires
        0 < n <= buf.len(),
        frame_accepts(q, buf.take(n), version),
    ensures
        accepted_frame_parts(buf, q, n, version),
{
    let body = choose|body: Seq<u8>| #[trigger] body_accepts(q, body, version) && body.len() <= VBI_MAX
        && buf.take(n) == seq![first_byte(q)] + vbi(body.len() as u32) + body;
    let v = vbi(body.len() as u32);
    let m: int = 1 + v.len() as int;
    let f = buf.take(n);
    assert(f.len() == n);
    assert(buf[0] == f[0]);
    assert(buf.subrange(1, m) == f.subrange(1, m));
    assert(f.subrange(1, m) == v);
    assert(buf.subrange(m, n) == f.subrange(m, n));
    assert(f.subrange(m, n) == body);
}

/// The last byte of a Variable Byte Integer has its high bit clear.
proof fn lemma_vbi_last_byte(x: u32)
    requires
        x <= VBI_MAX,
    ensures
        vbi(x)[vbi(x).len() - 1] < 128,
{
    lemma_vbi_len(x);
    if x >= 128 && x < 16384 {
        assert((x / 128) < 128) by (nonlinear_arith)
            requires
                x < 16384,
        ;
    } else if x >= 16384 && x < 2097152 {
        lemma_vbi3_bound(x);
    } else if x >= 2097152 {
        lemma_vbi4_bound(x);
    }
}

proof fn lemma_vbi3_bound(x: u32)
    requires
        16384 <= x < 2097152,
    ensures
        x / 16384 < 128,
{
    assert(x / 16384 < 128) by (nonlinear_arith)
        requires
            x < 2097152,
    ;
}

proof fn lemma_vbi4_bound(x: u32)
    requires
        2097152 <= x <= VBI_MAX,
    ensures
        x / 2097152 < 128,
{
    assert(x / 2097152 < 128) by (nonlinear_arith)
        requires
            x <= 268_435_455,
    ;
}

/// What a buffer that begins with a packet's encoding holds at each place.
proof fn lemma_frame_parts(buf: Seq<u8>, q: PacketV, version: u8, n: int)
    requires
        packet_ok(q, version),
        n == packet_bytes(q, version).len(),
        n <= buf.len(),
        buf.take(n) == packet_bytes(q, version),
    ensures
        buf[0] == first_byte(q),
        at(buf, 1, buf.len() as int, vbi(packet_body(q, version).len() as u32)),
        n == 1 + vbi(packet_body(q, version).len() as u32).len() + packet_body(q, version).len(),
        buf.subrange(1 + vbi(packet_body(q, version).len() as u32).len() as int, n) == packet_body(q, version),
{
    let v = vbi(packet_body(q, version).len() as u32);
    let b = packet_body(q, version);
    let m: int = 1 + v.len() as int;
    assert(buf[0] == buf.take(n)[0]);
    assert(buf.subrange(1, m) == buf.take(n).subrange(1, m));
    assert(packet_bytes(q, version).subrange(1, m) == v);
    assert(buf.subrange(m, n) == buf.take(n).subrange(m, n));
    assert(packet_bytes(q, version).subrange(m, n) == b);
}

/// What a proper prefix of a packet's encoding holds.
proof fn lemma_prefix_parts(buf: Seq<u8>, q: PacketV, version: u8)
    requires
        packet_ok(q, version),
        0 < buf.len() < packet_bytes(q, version).len(),
        buf == packet_bytes(q, version).take(buf.len() as int),
    ensures
        buf[0] == first_byte(q),
        at(buf, 1, buf.len() as int, vbi(packet_body(q, version).len() as u32)) ==> buf.len() < 1 + vbi(
            packet_body(q, version).len() as u32).len() + packet_body(q, version).len(),
        at(buf, 1, buf.len() as int, vbi(packet_body(q, version).len() as u32)) || (buf.len() - 1 < 4 && forall|k: int|
            1 <= k < buf.len() ==> #[trigger] buf[k] >= 128),
{
    let l = packet_body(q, version).len() as u32;
    let v = vbi(l);
    lemma_vbi_len(l);
    let m: int = 1 + v.len() as int;
    assert(buf[0] == packet_bytes(q, version)[0]);
    if buf.len() >= m {
        assert(buf.subrange(1, m) == packet_bytes(q, version).subrange(1, m));
        assert(packet_bytes(q, version).subrange(1, m) == v);
    } else {
        assert forall|k: int| 1 <= k < buf.len() implies #[trigger] buf[k] >= 128 by {
            assert(buf[k] == packet_bytes(q, version)[k]);
            assert(packet_bytes(q, version)[k] == v[k - 1]);
            lemma_vbi_high_bits(l, k - 1);
        }
    }
}


/// The encoding of the first `k` topics is a prefix of the encoding of all,
/// shorter by at least two bytes for each topic left out.
proof fn lemma_topics_prefix(ts: Seq<Seq<char>>, k: int)
    requires
        0 <= k <= ts.len(),
    ensures
        topics_bytes(ts.take(k)).len() + 2 * (ts.len() - k) <= topics_bytes(ts).len(),
        topics_bytes(ts).subrange(0, topics_bytes(ts.take(k)).len() as int) == topics_bytes(ts.take(k)),
    decreases ts.len() - k,
{
    if k < ts.len() {
        lemma_topics_prefix(ts, k + 1);
        assert(ts.take(k + 1).drop_last() == ts.take(k));
        let a = topics_bytes(ts.take(k));
        let b = topics_bytes(ts.take(k + 1));
        assert(b == a + str_field(ts[k]));
        assert(topics_bytes(ts).subrange(0, a.len() as int) == b.subrange(0, a.len() as int));
    } else {
        assert(ts.take(k) == ts);
    }
}

/// The views of a list of strings.
pub open spec fn string_views(ts: Seq<String>) -> Seq<Seq<char>> {
    ts.map_values(|t: String| t@)
}

/// Reads topic names up to `end`.
fn get_topics(buf: &[u8], pos: usize, end: usize) -> (r: Option<Vec<String>>)
    requires
        pos <= end <= buf@.len(),
    ensures
        r matches Some(ts) ==> topics_ok(string_views(ts@)) && buf@.subrange(pos as int, end as int)
            == topics_bytes(string_views(ts@)),
        forall|q: Seq<Seq<char>>| topics_ok(q) && buf@.subrange(pos as int, end as int) == #[trigger] topics_bytes(q)
            ==> (r matches Some(ts) && string_views(ts@) == q),
{
    let mut ts: Vec<String> = Vec::new();
    let mut cur = pos;
    assert(string_views(ts@) == Seq::<Seq<char>>::empty());
    assert(buf@.subrange(pos as int, pos as int) == Seq::<u8>::empty());
    proof {
        assert forall|q: Seq<Seq<char>>| topics_ok(q) && buf@.subrange(pos as int, end as int)
            == #[trigger] topics_bytes(q) implies q.take(0) == Seq::<Seq<char>>::empty() by {
        }
    }
    while cur < end
        invariant
            pos <= cur <= end <= buf@.len(),
            buf@.subrange(pos as int, cur as int) == topics_bytes(string_views(ts@)),
            topics_ok(string_views(ts@)),
            forall|q: Seq<Seq<char>>| topics_ok(q) && buf@.subrange(pos as int, end as int)
                == #[trigger] topics_bytes(q) ==> {
                &&& ts@.len() <= q.len()
                &&& string_views(ts@) == q.take(ts@.len() as int)
                &&& cur == pos + topics_bytes(q.take(ts@.len() as int)).len()
            },
        decreases end - cur,
    {
        let ghost k = ts@.len() as int;
        proof {
            assert forall|q: Seq<Seq<char>>| topics_ok(q) && buf@.subrange(pos as int, end as int)
                == #[trigger] topics_bytes(q) implies k < q.len() && str_ok(q[k])
                && at(buf@, cur as int, end as int, str_field(q[k])) by {
                if k == q.len() {
                    assert(q.take(k) == q);
                }
                lemma_topics_prefix(q, k + 1);
                assert(q.take(k + 1).drop_last() == q.take(k));
                let a = topics_bytes(q.take(k));
                let b = topics_bytes(q.take(k + 1));
                assert(b == a + str_field(q[k]));
                assert(cur == pos + a.len());
                assert(buf@.subrange(pos as int, pos + b.len()) == buf@.subrange(pos as int, end as int).subrange(0, b.len() as int));
                assert(buf@.subrange(pos as int, pos + b.len()) == b);
                assert(b.subrange(a.len() as int, b.len() as int) == str_field(q[k]));
                assert(buf@.subrange(cur as int, cur + str_field(q[k]).len()) == buf@.subrange(pos as int, pos + b.len()).subrange(a.len() as int, b.len() as int));
            }
        }
        let (t, e) = match get_str(buf, cur, end) {
            Some(x) => x,
            None => return None,
        };
        proof {
            let tv = string_views(ts@);
            assert(string_views(ts@.push(t)) == tv.push(t@));
            assert(string_views(ts@.push(t)).drop_last() == tv);
            assert(buf@.subrange(pos as int, e as int) == buf@.subrange(pos as int, cur as int)
                + buf@.subrange(cur as int, e as int));
            assert forall|i: int| 0 <= i < tv.push(t@).len() implies str_ok(#[trigger] tv.push(t@)[i]) by {
                if i < tv.len() {
                    assert(tv.push(t@)[i] == tv[i]);
                }
            }
            assert forall|q: Seq<Seq<char>>| topics_ok(q) && buf@.subrange(pos as int, end as int)
                == #[trigger] topics_bytes(q) implies string_views(ts@.push(t)) == q.take(k + 1)
                && e == pos + topics_bytes(q.take(k + 1)).len() by {
                assert(q.take(k + 1) == q.take(k).push(q[k]));
                assert(q.take(k + 1).drop_last() == q.take(k));
            }
        }
        ts.push(t);
        cur = e;
    }
    proof {
        assert forall|q: Seq<Seq<char>>| topics_ok(q) && buf@.subrange(pos as int, end as int)
            == #[trigger] topics_bytes(q) implies string_views(ts@) == q by {
            let k = ts@.len() as int;
            lemma_topics_prefix(q, k);
            if k < q.len() {
                assert(false);
            }
            assert(q.take(k) == q);
        }
    }
    Some(ts)
}


fn get_unsubscribe_body(buf: &[u8], pos: usize, end: usize, version: u8) -> (r: Option<MqttUnsubscribe>)
    requires
        pos <= end <= buf@.len(),
    ensures
        r matches Some(x) ==> buf@.subrange(pos as int, end as int) == unsubscribe_body(x@, version)
            && topics_ok(x@.topics) && (version == 5 ==> props_ok(x@.properties)) && (version != 5
            ==> x@.properties.len() == 0),
        forall|q: UnsubscribeV| (version == 5 ==> props_ok(q.properties)) && (version != 5 ==> q.properties.len() == 0)
            && topics_ok(q.topics) && buf@.subrange(pos as int, end as int) == #[trigger] unsubscribe_body(q, version)
            ==> (r matches Some(x) && x@ == q),
{
    let (id, p1) = match get_u16(buf, pos, end) {
        Some(v) => v,
        None => {
            proof {
                assert forall|q: UnsubscribeV| buf@.subrange(pos as int, end as int) == #[trigger] unsubscribe_body(q, version)
                    implies false by {
                    assert(unsubscribe_body(q, version).len() >= 2);
                }
            }
            return None;
        },
    };
    proof {
        assert forall|q: UnsubscribeV| buf@.subrange(pos as int, end as int) == #[trigger] unsubscribe_body(q, version)
            implies q.packet_id == id && buf@.subrange(p1 as int, end as int) == props_if_v5(q.properties, version)
            + topics_bytes(q.topics) by {
            lemma_sub_at(buf@, pos as int, end as int, unsubscribe_body(q, version));
            assert(unsubscribe_body(q, version) == be16(q.packet_id) + (props_if_v5(q.properties, version) + topics_bytes(q.topics)));
            lemma_at_split(buf@, pos as int, end as int, be16(q.packet_id), props_if_v5(q.properties, version) + topics_bytes(q.topics));
        }
    }
    let (ps, p2) = if version == 5 {
        proof {
            assert forall|q: UnsubscribeV| props_ok(q.properties) && buf@.subrange(pos as int, end as int)
                == #[trigger] unsubscribe_body(q, version) implies at(buf@, p1 as int, end as int, props_field(q.properties))
                && p1 + props_field(q.properties).len() + topics_bytes(q.topics).len() == end by {
                lemma_sub_at(buf@, p1 as int, end as int, props_field(q.properties) + topics_bytes(q.topics));
                lemma_at_split(buf@, p1 as int, end as int, props_field(q.properties), topics_bytes(q.topics));
            }
        }
        match get_properties(buf, p1, end) {
            Some(x) => x,
            None => return None,
        }
    } else {
        let ps: Vec<Property> = Vec::new();
        assert(views(ps@) == Seq::<PropertyV>::empty());
        (ps, p1)
    };
    proof {
        assert forall|q: UnsubscribeV| (version == 5 ==> props_ok(q.properties)) && (version != 5 ==> q.properties.len() == 0)
            && buf@.subrange(pos as int, end as int) == #[trigger] unsubscribe_body(q, version)
            implies views(ps@) == q.properties && buf@.subrange(p2 as int, end as int) == topics_bytes(q.topics) by {
            if version == 5 {
                lemma_sub_at(buf@, p1 as int, end as int, props_field(q.properties) + topics_bytes(q.topics));
                lemma_at_split(buf@, p1 as int, end as int, props_field(q.properties), topics_bytes(q.topics));
            } else {
                assert(q.properties == Seq::<PropertyV>::empty());
                assert(props_if_v5(q.properties, version) + topics_bytes(q.topics) == topics_bytes(q.topics));
            }
        }
    }
    let topics = match get_topics(buf, p2, end) {
        Some(t) => t,
        None => return None,
    };
    let x = MqttUnsubscribe { packet_id: id, topics, properties: ps };
    proof {
        let b = buf@.subrange(pos as int, end as int);
        assert(x@.topics == string_views(x.topics@));
        assert(b == buf@.subrange(pos as int, p1 as int) + buf@.subrange(p1 as int, p2 as int) + buf@.subrange(p2 as int, end as int));
        if version == 5 {
            assert(buf@.subrange(p1 as int, p2 as int) == props_field(views(ps@)));
        } else {
            assert(buf@.subrange(p1 as int, p2 as int) == Seq::<u8>::empty());
        }
        assert(b == unsubscribe_body(x@, version));
    }
    Some(x)
}

fn get_subscribe_body(buf: &[u8], pos: usize, end: usize, version: u8) -> (r: Option<MqttSubscribe>)
    requires
        pos <= end <= buf@.len(),
    ensures
        r matches Some(x) ==> buf@.subrange(pos as int, end as int) == subscribe_body(x@, version)
            && subs_ok(x@.subscriptions) && subs_representable(x@.subscriptions, version) && (version == 5 ==> props_ok(x@.properties)) && (version != 5
            ==> x@.properties.len() == 0),
        forall|q: SubscribeV| (version == 5 ==> props_ok(q.properties)) && (version != 5 ==> q.properties.len() == 0)
            && subs_ok(q.subscriptions) && subs_representable(q.subscriptions, version) && buf@.subrange(pos as int, end as int) == #[trigger] subscribe_body(q, version)
            ==> (r matches Some(x) && x@ == q),
{
    let (id, p1) = match get_u16(buf, pos, end) {
        Some(v) => v,
        None => {
            proof {
                assert forall|q: SubscribeV| buf@.subrange(pos as int, end as int) == #[trigger] subscribe_body(q, version)
                    implies false by {
                    assert(subscribe_body(q, version).len() >= 2);
                }
            }
            return None;
        },
    };
    proof {
        assert forall|q: SubscribeV| buf@.subrange(pos as int, end as int) == #[trigger] subscribe_body(q, version)
            implies q.packet_id == id && buf@.subrange(p1 as int, end as int) == props_if_v5(q.properties, version)
            + subs_bytes(q.subscriptions, version) by {
            lemma_sub_at(buf@, pos as int, end as int, subscribe_body(q, version));
            assert(subscribe_body(q, version) == be16(q.packet_id) + (props_if_v5(q.properties, version) + subs_bytes(q.subscriptions, version)));
            lemma_at_split(buf@, pos as int, end as int, be16(q.packet_id), props_if_v5(q.properties, version) + subs_bytes(q.subscriptions, version));
        }
    }
    let (ps, p2) = if version == 5 {
        proof {
            assert forall|q: SubscribeV| props_ok(q.properties) && buf@.subrange(pos as int, end as int)
                == #[trigger] subscribe_body(q, version) implies at(buf@, p1 as int, end as int, props_field(q.properties))
                && p1 + props_field(q.properties).len() + subs_bytes(q.subscriptions, version).len() == end by {
                lemma_sub_at(buf@, p1 as int, end as int, props_field(q.properties) + subs_bytes(q.subscriptions, version));
                lemma_at_split(buf@, p1 as int, end as int, props_field(q.properties), subs_bytes(q.subscriptions, version));
            }
        }
        match get_properties(buf, p1, end) {
            Some(x) => x,
            None => return None,
        }
    } else {
        let ps: Vec<Property> = Vec::new();
        assert(views(ps@) == Seq::<PropertyV>::empty());
        (ps, p1)
    };
    proof {
        assert forall|q: SubscribeV| (version == 5 ==> props_ok(q.properties)) && (version != 5 ==> q.properties.len() == 0)
            && buf@.subrange(pos as int, end as int) == #[trigger] subscribe_body(q, version)
            implies views(ps@) == q.properties && buf@.subrange(p2 as int, end as int) == subs_bytes(q.subscriptions, version) by {
            if version == 5 {
                lemma_sub_at(buf@, p1 as int, end as int, props_field(q.properties) + subs_bytes(q.subscriptions, version));
                lemma_at_split(buf@, p1 as int, end as int, props_field(q.properties), subs_bytes(q.subscriptions, version));
            } else {
                assert(q.properties == Seq::<PropertyV>::empty());
                assert(props_if_v5(q.properties, version) + subs_bytes(q.subscriptions, version) == subs_bytes(q.subscriptions, version));
            }
        }
    }
    let subscriptions = match get_subscriptions(buf, p2, end, version) {
        Some(t) => t,
        None => return None,
    };
    let x = MqttSubscribe { packet_id: id, subscriptions, properties: ps };
    proof {
        let b = buf@.subrange(pos as int, end as int);
        assert(x@.subscriptions == sub_views(x.subscriptions@));
        assert(b == buf@.subrange(pos as int, p1 as int) + buf@.subrange(p1 as int, p2 as int) + buf@.subrange(p2 as int, end as int));
        if version == 5 {
            assert(buf@.subrange(p1 as int, p2 as int) == props_field(views(ps@)));
        } else {
            assert(buf@.subrange(p1 as int, p2 as int) == Seq::<u8>::empty());
        }
        assert(b == subscribe_body(x@, version));
    }
    Some(x)
}


/// The subscription options a byte carries in MQTT 5.
proof fn lemma_options_byte(b: u8, q: u8, n: u8, r: u8, h: u8)
    requires
        q <= 2,
        n <= 1,
        r <= 1,
        h <= 2,
    ensures
        b == q + n * 4 + r * 8 + h * 16 <==> (b & 3 == q && (b & 4 != 0) == (n == 1) && (b & 8 != 0) == (r == 1)
            && (b >> 4u8) & 3 == h && b & 0xC0 == 0),
{
    assert(b == q + n * 4 + r * 8 + h * 16 <==> (b & 3 == q && (b & 4 != 0) == (n == 1) && (b & 8 != 0) == (r == 1)
        && (b >> 4u8) & 3 == h && b & 0xC0 == 0)) by (bit_vector)
        requires
            q <= 2,
            n <= 1,
            r <= 1,
            h <= 2,
    ;
}

/// Whether a subscription keeps all its options in the given version:
/// MQTT 3.1.1 carries only the QoS.
pub open spec fn sub_representable(t: TopicSubscriptionV, version: u8) -> bool {
    version != 5 ==> !t.no_local && !t.retain_as_published && t.retain_handling == 0
}

/// Reads a subscription options byte: QoS, No Local, Retain As Published,
/// Retain Handling.
fn get_sub_options(b: u8, version: u8) -> (r: Option<(u8, bool, bool, u8)>)
    ensures
        r matches Some((qos, nl, rap, rh)) ==> qos <= 2 && rh <= 2 && sub_representable(TopicSubscriptionV {
            topic_filter: seq![], qos, no_local: nl, retain_as_published: rap, retain_handling: rh }, version)
            && sub_options(TopicSubscriptionV { topic_filter: seq![], qos, no_local: nl, retain_as_published: rap,
            retain_handling: rh }, version) == b,
        forall|t: TopicSubscriptionV| t.qos <= 2 && t.retain_handling <= 2 && sub_representable(t, version)
            && #[trigger] sub_options(t, version) == b ==> r == Some((t.qos, t.no_local, t.retain_as_published, t.retain_handling)),
{
    if version == 5 {
        let qos = b & 3;
        let nl = b & 4 != 0;
        let rap = b & 8 != 0;
        let rh = (b >> 4u8) & 3;
        proof {
            assert forall|t: TopicSubscriptionV| t.qos <= 2 && t.retain_handling <= 2
                && #[trigger] sub_options(t, version) == b implies qos == t.qos && nl == t.no_local
                && rap == t.retain_as_published && rh == t.retain_handling && b & 0xC0 == 0 by {
                lemma_options_byte(b, t.qos, if t.no_local { 1 } else { 0 }, if t.retain_as_published { 1 } else { 0 },
                    t.retain_handling);
            }
        }
        if qos > 2 || rh > 2 || b & 0xC0 != 0 {
            return None;
        }
        proof {
            lemma_options_byte(b, qos, if nl { 1 } else { 0 }, if rap { 1 } else { 0 }, rh);
        }
        Some((qos, nl, rap, rh))
    } else {
        if b > 2 {
            return None;
        }
        Some((b, false, false, 0))
    }
}

/// The encoding of the first `k` subscriptions is a prefix of the encoding
/// of all, shorter by at least three bytes for each one left out.
proof fn lemma_subs_prefix(ss: Seq<TopicSubscriptionV>, k: int, version: u8)
    requires
        0 <= k <= ss.len(),
    ensures
        subs_bytes(ss.take(k), version).len() + 3 * (ss.len() - k) <= subs_bytes(ss, version).len(),
        subs_bytes(ss, version).subrange(0, subs_bytes(ss.take(k), version).len() as int) == subs_bytes(ss.take(k), version),
    decreases ss.len() - k,
{
    if k < ss.len() {
        lemma_subs_prefix(ss, k + 1, version);
        assert(ss.take(k + 1).drop_last() == ss.take(k));
        let a = subs_bytes(ss.take(k), version);
        let b = subs_bytes(ss.take(k + 1), version);
        assert(b == a + str_field(ss[k].topic_filter) + seq![sub_options(ss[k], version)]);
        assert(subs_bytes(ss, version).subrange(0, a.len() as int) == b.subrange(0, a.len() as int));
    } else {
        assert(ss.take(k) == ss);
    }
}

/// The views of a list of subscriptions.
pub open spec fn sub_views(ts: Seq<TopicSubscription>) -> Seq<TopicSubscriptionV> {
    ts.map_values(|t: TopicSubscription| t@)
}

/// Whether every subscription of the list keeps its options in the version.
pub open spec fn subs_representable(ss: Seq<TopicSubscriptionV>, version: u8) -> bool {
    forall|i: int| 0 <= i < ss.len() ==> sub_representable(#[trigger] ss[i], version)
}

/// Reads topic filters with their options up to `end`.
fn get_subscriptions(buf: &[u8], pos: usize, end: usize, version: u8) -> (r: Option<Vec<TopicSubscription>>)
    requires
        pos <= end <= buf@.len(),
    ensures
        r matches Some(ts) ==> subs_ok(sub_views(ts@)) && subs_representable(sub_views(ts@), version)
            && buf@.subrange(pos as int, end as int) == subs_bytes(sub_views(ts@), version),
        forall|q: Seq<TopicSubscriptionV>| subs_ok(q) && subs_representable(q, version) && buf@.subrange(pos as int, end as int)
            == #[trigger] subs_bytes(q, version) ==> (r matches Some(ts) && sub_views(ts@) == q),
{
    let mut ts: Vec<TopicSubscription> = Vec::new();
    let mut cur = pos;
    assert(sub_views(ts@) == Seq::<TopicSubscriptionV>::empty());
    assert(buf@.subrange(pos as int, pos as int) == Seq::<u8>::empty());
    while cur < end
        invariant
            pos <= cur <= end <= buf@.len(),
            buf@.subrange(pos as int, cur as int) == subs_bytes(sub_views(ts@), version),
            subs_ok(sub_views(ts@)),
            subs_representable(sub_views(ts@), version),
            forall|q: Seq<TopicSubscriptionV>| subs_ok(q) && subs_representable(q, version) && buf@.subrange(pos as int,
                end as int) == #[trigger] subs_bytes(q, version) ==> {
                &&& ts@.len() <= q.len()
                &&& sub_views(ts@) == q.take(ts@.len() as int)
                &&& cur == pos + subs_bytes(q.take(ts@.len() as int), version).len()
            },
        decreases end - cur,
    {
        let ghost k = ts@.len() as int;
        proof {
            assert forall|q: Seq<TopicSubscriptionV>| subs_ok(q) && subs_representable(q, version)
                && buf@.subrange(pos as int, end as int) == #[trigger] subs_bytes(q, version)
                implies k < q.len() && str_ok(q[k].topic_filter) && at(buf@, cur as int, end as int,
                str_field(q[k].topic_filter)) && cur + str_field(q[k].topic_filter).len() < end
                && buf@[cur + str_field(q[k].topic_filter).len()] == sub_options(q[k], version) by {
                if k == q.len() {
                    assert(q.take(k) == q);
                }
                lemma_subs_prefix(q, k + 1, version);
                assert(q.take(k + 1).drop_last() == q.take(k));
                let a = subs_bytes(q.take(k), version);
                let b = subs_bytes(q.take(k + 1), version);
                let f = str_field(q[k].topic_filter);
                assert(b == a + f + seq![sub_options(q[k], version)]);
                assert(cur == pos + a.len());
                assert(buf@.subrange(pos as int, pos + b.len()) == buf@.subrange(pos as int, end as int).subrange(0, b.len() as int));
                assert(buf@.subrange(pos as int, pos + b.len()) == b);
                assert(b.subrange(a.len() as int, a.len() as int + f.len()) == f);
                assert(buf@.subrange(cur as int, cur + f.len()) == buf@.subrange(pos as int, pos + b.len()).subrange(a.len() as int, a.len() as int + f.len()));
                assert(b[a.len() as int + f.len()] == sub_options(q[k], version));
                assert(buf@[cur + f.len()] == buf@.subrange(pos as int, pos + b.len())[a.len() as int + f.len()]);
                assert(str_ok(q[k].topic_filter));
            }
        }
        let (filter, e1) = match get_str(buf, cur, end) {
            Some(x) => x,
            None => return None,
        };
        if e1 >= end {
            return None;
        }
        let opt = buf[e1];
        let (qos, nl, rap, rh) = match get_sub_options(opt, version) {
            Some(x) => x,
            None => return None,
        };
        let t = TopicSubscription { topic_filter: filter, qos, no_local: nl, retain_as_published: rap, retain_handling: rh };
        let e = e1 + 1;
        proof {
            let tv = sub_views(ts@);
            assert(sub_options(t@, version) == opt);
            assert(sub_views(ts@.push(t)) == tv.push(t@));
            assert(sub_views(ts@.push(t)).drop_last() == tv);
            assert(buf@.subrange(e1 as int, e as int) == seq![opt]);
            assert(buf@.subrange(pos as int, e as int) == buf@.subrange(pos as int, cur as int)
                + buf@.subrange(cur as int, e1 as int) + buf@.subrange(e1 as int, e as int));
            assert forall|i: int| 0 <= i < tv.push(t@).len() implies str_ok(#[trigger] tv.push(t@)[i].topic_filter)
                && tv.push(t@)[i].qos <= 2 && tv.push(t@)[i].retain_handling <= 2 by {
                if i < tv.len() {
                    assert(tv.push(t@)[i] == tv[i]);
                }
            }
            assert forall|i: int| 0 <= i < tv.push(t@).len() implies sub_representable(#[trigger] tv.push(t@)[i], version) by {
                if i < tv.len() {
                    assert(tv.push(t@)[i] == tv[i]);
                }
            }
            assert forall|q: Seq<TopicSubscriptionV>| subs_ok(q) && subs_representable(q, version)
                && buf@.subrange(pos as int, end as int) == #[trigger] subs_bytes(q, version)
                implies sub_views(ts@.push(t)) == q.take(k + 1) && e == pos + subs_bytes(q.take(k + 1), version).len() by {
                assert(q.take(k + 1) == q.take(k).push(q[k]));
                assert(q.take(k + 1).drop_last() == q.take(k));
                assert(sub_representable(q[k], version));
                assert(t@ == q[k]);
            }
        }
        ts.push(t);
        cur = e;
    }
    proof {
        assert forall|q: Seq<TopicSubscriptionV>| subs_ok(q) && subs_representable(q, version)
            && buf@.subrange(pos as int, end as int) == #[trigger] subs_bytes(q, version) implies sub_views(ts@) == q by {
            let k = ts@.len() as int;
            lemma_subs_prefix(q, k, version);
            if k < q.len() {
                assert(false);
            }
            assert(q.take(k) == q);
        }
    }
    Some(ts)
}


/// The CONNECT flags byte and the fields it carries.
proof fn lemma_connect_flags(f: u8, u: u8, p: u8, r: u8, q: u8, w: u8, c: u8)
    requires
        u <= 1,
        p <= 1,
        r <= 1,
        q <= 2,
        w <= 1,
        c <= 1,
        w == 0 ==> q == 0 && r == 0,
    ensures
        f == u * 128 + p * 64 + r * 32 + q * 8 + w * 4 + c * 2 <==> ((f & 128 != 0) == (u == 1) && (f & 64 != 0) == (p
            == 1) && (f & 32 != 0) == (r == 1) && (f >> 3u8) & 3 == q && (f & 4 != 0) == (w == 1) && (f & 2 != 0) == (c
            == 1) && f & 1 == 0),
{
    assert(f == u * 128 + p * 64 + r * 32 + q * 8 + w * 4 + c * 2 <==> ((f & 128 != 0) == (u == 1) && (f & 64 != 0) == (
        p == 1) && (f & 32 != 0) == (r == 1) && (f >> 3u8) & 3 == q && (f & 4 != 0) == (w == 1) && (f & 2 != 0) == (c
        == 1) && f & 1 == 0)) by (bit_vector)
        requires
            u <= 1,
            p <= 1,
            r <= 1,
            q <= 2,
            w <= 1,
            c <= 1,
            w == 0 ==> q == 0 && r == 0,
    ;
}

/// The fields the CONNECT flags byte carries: user name present, password
/// present, will retain, will QoS, will present, clean start.
pub struct ConnectFlags {
    pub username: bool,
    pub password: bool,
    pub will_retain: bool,
    pub will_qos: u8,
    pub will: bool,
    pub clean_start: bool,
}

/// Whether the flags are those of a CONNECT.
pub open spec fn flags_of(fl: ConnectFlags, c: ConnectV) -> bool {
    &&& fl.username == c.username is Some
    &&& fl.password == c.password is Some
    &&& fl.will == c.will is Some
    &&& fl.will_retain == (c.will is Some && c.will->0.retain)
    &&& fl.will_qos == (if c.will is Some { c.will->0.qos } else { 0 })
    &&& fl.clean_start == c.clean_start
}

/// Reads the CONNECT flags byte.
fn get_connect_flags(f: u8) -> (r: Option<ConnectFlags>)
    ensures
        r matches Some(fl) ==> fl.will_qos <= 2 && (!fl.will ==> fl.will_qos == 0 && !fl.will_retain)
            && forall|c: ConnectV| flags_of(fl, c) ==> connect_flags(c) == f,
        forall|c: ConnectV| will_ok(c.will, 4) && #[trigger] connect_flags(c) == f ==> (r matches Some(fl) && flags_of(fl, c)),
{
    let username = f & 128 != 0;
    let password = f & 64 != 0;
    let will_retain = f & 32 != 0;
    let will_qos = (f >> 3u8) & 3;
    let will = f & 4 != 0;
    let clean_start = f & 2 != 0;
    proof {
        assert forall|c: ConnectV| will_ok(c.will, 4) && #[trigger] connect_flags(c) == f implies username == c.username is Some
            && password == c.password is Some && will == c.will is Some && will_retain == (c.will is Some && c.will->0.retain)
            && will_qos == (if c.will is Some { c.will->0.qos } else { 0 }) && clean_start == c.clean_start && f & 1 == 0 by {
            let w = c.will is Some;
            lemma_connect_flags(f, if c.username is Some { 1 } else { 0 }, if c.password is Some { 1 } else { 0 },
                if w && c.will->0.retain { 1 } else { 0 }, if w { c.will->0.qos } else { 0 }, if w { 1 } else { 0 },
                if c.clean_start { 1 } else { 0 });
        }
    }
    if f & 1 != 0 || will_qos > 2 || (!will && (will_qos != 0 || will_retain)) {
        return None;
    }
    let fl = ConnectFlags { username, password, will_retain, will_qos, will, clean_start };
    proof {
        lemma_connect_flags(f, if username { 1 } else { 0 }, if password { 1 } else { 0 }, if will_retain { 1 } else { 0 },
            will_qos, if will { 1 } else { 0 }, if clean_start { 1 } else { 0 });
    }
    Some(fl)
}


/// Whether a will keeps all its fields in the given version.
pub open spec fn will_representable(w: Option<WillV>, version: u8) -> bool {
    w matches Some(x) ==> (version != 5 ==> x.properties.len() == 0)
}

/// Reads the will of a CONNECT: its properties (MQTT 5), topic and payload.
fn get_will(buf: &[u8], pos: usize, end: usize, version: u8, qos: u8, retain: bool) -> (r: Option<(Will, usize)>)
    requires
        pos <= end <= buf@.len(),
        qos <= 2,
    ensures
        r matches Some((w, e)) ==> w@.qos == qos && w@.retain == retain && will_ok(Some(w@), version)
            && will_representable(Some(w@), version) && e == pos + will_bytes(Some(w@), version).len()
            && at(buf@, pos as int, end as int, will_bytes(Some(w@), version)),
        forall|x: WillV| x.qos == qos && x.retain == retain && will_ok(Some(x), version) && will_representable(Some(x), version)
            && #[trigger] at(buf@, pos as int, end as int, will_bytes(Some(x), version)) ==> (r matches Some((w, e)) && w@ == x
            && e == pos + will_bytes(Some(x), version).len()),
{
    proof {
        assert forall|x: WillV| #[trigger] at(buf@, pos as int, end as int, will_bytes(Some(x), version)) implies at(buf@,
            pos as int, end as int, props_if_v5(x.properties, version)) && at(buf@, pos + props_if_v5(x.properties,
            version).len(), end as int, str_field(x.topic)) && at(buf@, pos + props_if_v5(x.properties, version).len()
            + str_field(x.topic).len(), end as int, bin_field(x.payload)) by {
            let a = props_if_v5(x.properties, version);
            let b = str_field(x.topic);
            let c = bin_field(x.payload);
            lemma_at_split(buf@, pos as int, end as int, a + b, c);
            lemma_at_split(buf@, pos as int, end as int, a, b);
        }
    }
    let (ps, p1) = if version == 5 {
        match get_properties(buf, pos, end) {
            Some((ps, e)) => {
                assert(at(buf@, pos as int, end as int, props_if_v5(views(ps@), version)));
                (ps, e)
            },
            None => return None,
        }
    } else {
        let ps: Vec<Property> = Vec::new();
        assert(views(ps@) == Seq::<PropertyV>::empty());
        assert(buf@.subrange(pos as int, pos as int) == props_if_v5(views(ps@), version));
        (ps, pos)
    };
    proof {
        assert forall|x: WillV| will_ok(Some(x), version) && will_representable(Some(x), version)
            && #[trigger] at(buf@, pos as int, end as int, will_bytes(Some(x), version)) implies views(ps@) == x.properties
            && p1 == pos + props_if_v5(x.properties, version).len() by {
            if version != 5 {
                assert(x.properties == Seq::<PropertyV>::empty());
            }
        }
    }
    let (topic, p2) = match get_str(buf, p1, end) {
        Some(x) => x,
        None => return None,
    };
    let (payload, p3) = match get_bin(buf, p2, end) {
        Some(x) => x,
        None => return None,
    };
    let w = Will { topic, payload, qos, retain, properties: ps };
    proof {
        let a = props_if_v5(w@.properties, version);
        let b = str_field(w@.topic);
        let c = bin_field(w@.payload);
        assert(buf@.subrange(pos as int, p3 as int) == buf@.subrange(pos as int, p1 as int) + buf@.subrange(p1 as int, p2 as int)
            + buf@.subrange(p2 as int, p3 as int));
        assert(buf@.subrange(pos as int, p3 as int) == will_bytes(Some(w@), version));
    }
    Some((w, p3))
}

/// Reads the user name and password that end a CONNECT, as its flags announce.
fn get_credentials(buf: &[u8], pos: usize, end: usize, has_user: bool, has_pass: bool)
    -> (r: Option<(Option<String>, Option<Vec<u8>>)>)
    requires
        pos <= end <= buf@.len(),
    ensures
        r matches Some((u, pw)) ==> (u is Some == has_user) && (pw is Some == has_pass) && {
            let c = ConnectV {
                client_id: seq![],
                username: match u { Some(x) => Some(x@), None => None },
                password: match pw { Some(x) => Some(x@), None => None },
                will: None,
                keep_alive: 0,
                clean_start: false,
                properties: seq![],
            };
            credentials_ok(c) && buf@.subrange(pos as int, end as int) == credentials_bytes(c)
        },
        forall|c: ConnectV| (c.username is Some == has_user) && (c.password is Some == has_pass) && credentials_ok(c)
            && buf@.subrange(pos as int, end as int) == #[trigger] credentials_bytes(c) ==> (r matches Some((u, pw))
            && (match u { Some(x) => Some(x@), None => None }) == c.username && (match pw { Some(x) => Some(x@), None => None })
            == c.password),
{
    let ghost ua = |c: ConnectV| match c.username { Some(x) => str_field(x), None => Seq::<u8>::empty() };
    let ghost pa = |c: ConnectV| match c.password { Some(x) => bin_field(x), None => Seq::<u8>::empty() };
    proof {
        assert forall|c: ConnectV| buf@.subrange(pos as int, end as int) == #[trigger] credentials_bytes(c) implies at(buf@,
            pos as int, end as int, ua(c)) && at(buf@, pos + ua(c).len(), end as int, pa(c)) && pos + ua(c).len() + pa(c).len()
            == end by {
            lemma_sub_at(buf@, pos as int, end as int, ua(c) + pa(c));
            lemma_at_split(buf@, pos as int, end as int, ua(c), pa(c));
        }
    }
    let (u, p1) = if has_user {
        match get_str(buf, pos, end) {
            Some((x, e)) => (Some(x), e),
            None => return None,
        }
    } else {
        (None, pos)
    };
    let (pw, p2) = if has_pass {
        match get_bin(buf, p1, end) {
            Some((x, e)) => (Some(x), e),
            None => return None,
        }
    } else {
        (None, p1)
    };
    if p2 != end {
        return None;
    }
    proof {
        let c = ConnectV {
            client_id: seq![],
            username: match &u { Some(x) => Some(x@), None => None },
            password: match &pw { Some(x) => Some(x@), None => None },
            will: None,
            keep_alive: 0,
            clean_start: false,
            properties: seq![],
        };
        assert(buf@.subrange(pos as int, end as int) == buf@.subrange(pos as int, p1 as int) + buf@.subrange(p1 as int, end as int));
        if !has_user {
            assert(buf@.subrange(pos as int, p1 as int) == Seq::<u8>::empty());
        }
        if !has_pass {
            assert(buf@.subrange(p1 as int, p2 as int) == Seq::<u8>::empty());
        }
        assert(buf@.subrange(pos as int, end as int) == credentials_bytes(c));
    }
    Some((u, pw))
}


/// What a buffer holding a CONNECT body holds at each place.
proof fn lemma_connect_split(buf: Seq<u8>, pos: int, end: int, q: ConnectV, version: u8)
    requires
        0 <= pos <= end <= buf.len(),
        buf.subrange(pos, end) == connect_body(q, version),
    ensures
        pos + 10 <= end,
        buf.subrange(pos, pos + 6) == protocol_name(),
        buf[pos + 6] == (if version == 5 { 5u8 } else { 4u8 }),
        buf[pos + 7] == connect_flags(q),
        at(buf, pos + 8, end, be16(q.keep_alive)),
        at(buf, pos + 10, end, props_if_v5(q.properties, version)),
        at(buf, pos + 10 + props_if_v5(q.properties, version).len(), end, str_field(q.client_id)),
        at(buf, pos + 10 + props_if_v5(q.properties, version).len() + str_field(q.client_id).len(), end,
            will_bytes(q.will, version)),
        buf.subrange(pos + 10 + props_if_v5(q.properties, version).len() + str_field(q.client_id).len()
            + will_bytes(q.will, version).len(), end) == credentials_bytes(q),
{
    let h = connect_header(q, version);
    let pp = props_if_v5(q.properties, version);
    let c = str_field(q.client_id);
    let w = will_bytes(q.will, version);
    let k = credentials_bytes(q);
    lemma_sub_at(buf, pos, end, (((h + pp) + c) + w) + k);
    lemma_at_split(buf, pos, end, ((h + pp) + c) + w, k);
    lemma_at_split(buf, pos, end, (h + pp) + c, w);
    lemma_at_split(buf, pos, end, h + pp, c);
    lemma_at_split(buf, pos, end, h, pp);
    let lv = seq![if version == 5 { 5u8 } else { 4u8 }, connect_flags(q)];
    lemma_at_split(buf, pos, end, protocol_name() + lv, be16(q.keep_alive));
    lemma_at_split(buf, pos, end, protocol_name(), lv);
    assert(buf[pos + 6] == buf.subrange(pos + 6, pos + 8)[0]);
    assert(buf[pos + 7] == buf.subrange(pos + 6, pos + 8)[1]);
}

/// What the first part of a CONNECT body announces: its flags, keep-alive,
/// properties and client identifier.
pub struct ConnectHead {
    pub flags: ConnectFlags,
    pub keep_alive: u16,
    pub properties: Vec<Property>,
    pub client_id: String,
}

/// Whether a CONNECT has the fields the head read.
pub open spec fn head_of(h: ConnectHead, c: ConnectV) -> bool {
    &&& flags_of(h.flags, c)
    &&& c.keep_alive == h.keep_alive
    &&& c.properties == views(h.properties@)
    &&& c.client_id == h.client_id@
}

/// The CONNECTs that a body may encode, in the given version.
pub open spec fn connect_candidate(q: ConnectV, version: u8) -> bool {
    &&& fields_ok(PacketV::Connect(q), version)
    &&& version != 5 ==> q.properties.len() == 0
    &&& will_representable(q.will, version)
}

/// Reads a CONNECT body up to and including the client identifier.
#[verifier::rlimit(40)]
fn get_connect_head(buf: &[u8], pos: usize, end: usize, version: u8) -> (r: Option<(ConnectHead, usize)>)
    requires
        pos <= end <= buf@.len(),
    ensures
        r matches Some((h, e)) ==> pos <= e <= end && h.flags.will_qos <= 2 && (!h.flags.will ==> h.flags.will_qos == 0
            && !h.flags.will_retain) && v5_props_ok(views(h.properties@), version) && (version != 5
            ==> h.properties@.len() == 0) && str_ok(h.client_id@) && forall|c: ConnectV| head_of(h, c)
            ==> buf@.subrange(pos as int, e as int) == connect_header(c, version) + props_if_v5(c.properties, version)
            + str_field(c.client_id),
        forall|q: ConnectV| connect_candidate(q, version) && buf@.subrange(pos as int, end as int)
            == #[trigger] connect_body(q, version) ==> (r matches Some((h, e)) && head_of(h, q) && e == pos + 10
            + props_if_v5(q.properties, version).len() + str_field(q.client_id).len()),
{
    proof {
        assert forall|q: ConnectV| buf@.subrange(pos as int, end as int) == #[trigger] connect_body(q, version)
            implies pos + 10 <= end by {
            lemma_connect_split(buf@, pos as int, end as int, q, version);
        }
    }
    if end - pos < 10 {
        return None;
    }
    let ghost name = buf@.subrange(pos as int, pos + 6);
    if buf[pos] != 0 || buf[pos + 1] != 4 || buf[pos + 2] != 0x4D || buf[pos + 3] != 0x51 || buf[pos + 4] != 0x54
        || buf[pos + 5] != 0x54 {
        proof {
            assert forall|q: ConnectV| buf@.subrange(pos as int, end as int) == #[trigger] connect_body(q, version)
                implies false by {
                lemma_connect_split(buf@, pos as int, end as int, q, version);
                assert(name[0] == buf@[pos as int]);
                assert(name[1] == buf@[pos + 1]);
                assert(name[2] == buf@[pos + 2]);
                assert(name[3] == buf@[pos + 3]);
                assert(name[4] == buf@[pos + 4]);
                assert(name[5] == buf@[pos + 5]);
            }
        }
        return None;
    }
    assert(name == protocol_name());
    let level = buf[pos + 6];
    let f = buf[pos + 7];
    proof {
        assert forall|q: ConnectV| connect_candidate(q, version) && buf@.subrange(pos as int, end as int)
            == #[trigger] connect_body(q, version) implies level == (if version == 5 { 5u8 } else { 4u8 })
            && will_ok(q.will, 4) && connect_flags(q) == f by {
            lemma_connect_split(buf@, pos as int, end as int, q, version);
        }
    }
    if level != (if version == 5 { 5u8 } else { 4u8 }) {
        return None;
    }
    let fl = match get_connect_flags(f) {
        Some(fl) => fl,
        None => return None,
    };
    let (keep_alive, p1) = match get_u16(buf, pos + 8, end) {
        Some(x) => x,
        None => return None,
    };
    proof {
        assert forall|q: ConnectV| connect_candidate(q, version) && buf@.subrange(pos as int, end as int)
            == #[trigger] connect_body(q, version) implies flags_of(fl, q) && q.keep_alive == keep_alive
            && at(buf@, p1 as int, end as int, props_if_v5(q.properties, version)) by {
            lemma_connect_split(buf@, pos as int, end as int, q, version);
        }
    }
    let (ps, p2) = if version == 5 {
        match get_properties(buf, p1, end) {
            Some((ps, e)) => {
                assert(at(buf@, p1 as int, end as int, props_if_v5(views(ps@), version)));
                (ps, e)
            },
            None => return None,
        }
    } else {
        let ps: Vec<Property> = Vec::new();
        assert(views(ps@) == Seq::<PropertyV>::empty());
        assert(buf@.subrange(p1 as int, p1 as int) == props_if_v5(views(ps@), version));
        (ps, p1)
    };
    proof {
        assert forall|q: ConnectV| connect_candidate(q, version) && buf@.subrange(pos as int, end as int)
            == #[trigger] connect_body(q, version) implies views(ps@) == q.properties
            && at(buf@, p2 as int, end as int, str_field(q.client_id)) by {
            lemma_connect_split(buf@, pos as int, end as int, q, version);
            if version != 5 {
                assert(q.properties == Seq::<PropertyV>::empty());
            }
        }
    }
    let (client_id, p3) = match get_str(buf, p2, end) {
        Some(x) => x,
        None => return None,
    };
    let h = ConnectHead { flags: fl, keep_alive, properties: ps, client_id };
    proof {
        assert forall|c: ConnectV| head_of(h, c) implies buf@.subrange(pos as int, p3 as int) == connect_header(c, version)
            + props_if_v5(c.properties, version) + str_field(c.client_id) by {
            assert(connect_flags(c) == f);
            assert(buf@.subrange(pos as int, pos + 8) == protocol_name() + seq![level, f]);
            assert(buf@.subrange(pos as int, p1 as int) == connect_header(c, version));
            assert(buf@.subrange(pos as int, p3 as int) == buf@.subrange(pos as int, p1 as int) + buf@.subrange(p1 as int,
                p2 as int) + buf@.subrange(p2 as int, p3 as int));
        }
    }
    Some((h, p3))
}

fn get_connect_body(buf: &[u8], pos: usize, end: usize, version: u8) -> (r: Option<MqttConnect>)
    requires
        pos <= end <= buf@.len(),
    ensures
        r matches Some(x) ==> buf@.subrange(pos as int, end as int) == connect_body(x@, version)
            && connect_candidate(x@, version),
        forall|q: ConnectV| connect_candidate(q, version) && buf@.subrange(pos as int, end as int)
            == #[trigger] connect_body(q, version) ==> (r matches Some(x) && x@ == q),
{
    let (h, p3) = match get_connect_head(buf, pos, end, version) {
        Some(x) => x,
        None => return None,
    };
    proof {
        assert forall|q: ConnectV| connect_candidate(q, version) && buf@.subrange(pos as int, end as int)
            == #[trigger] connect_body(q, version) implies at(buf@, p3 as int, end as int, will_bytes(q.will, version))
            && buf@.subrange(p3 + will_bytes(q.will, version).len(), end as int) == credentials_bytes(q) by {
            lemma_connect_split(buf@, pos as int, end as int, q, version);
        }
    }
    let fl = h.flags;
    let (will, p4): (Option<Will>, usize) = if fl.will {
        match get_will(buf, p3, end, version, fl.will_qos, fl.will_retain) {
            Some((w, e)) => (Some(w), e),
            None => return None,
        }
    } else {
        assert(buf@.subrange(p3 as int, p3 as int) == will_bytes(None, version));
        (None, p3)
    };
    let ghost wv: Option<WillV> = match &will {
        Some(w) => Some(w@),
        None => None,
    };
    assert(at(buf@, p3 as int, end as int, will_bytes(wv, version)) && p4 == p3 + will_bytes(wv, version).len());
    proof {
        assert forall|q: ConnectV| connect_candidate(q, version) && buf@.subrange(pos as int, end as int)
            == #[trigger] connect_body(q, version) implies q.will == wv && buf@.subrange(p4 as int, end as int)
            == credentials_bytes(q) by {
        }
    }
    let (username, password) = match get_credentials(buf, p4, end, fl.username, fl.password) {
        Some(x) => x,
        None => return None,
    };
    let x = MqttConnect {
        client_id: h.client_id,
        username,
        password,
        will,
        keep_alive: h.keep_alive,
        clean_start: fl.clean_start,
        properties: h.properties,
    };
    proof {
        let xv = x@;
        assert(xv.will == wv);
        assert(head_of(h, xv));
        let b = buf@.subrange(pos as int, end as int);
        assert(b == buf@.subrange(pos as int, p3 as int) + buf@.subrange(p3 as int, p4 as int) + buf@.subrange(p4 as int,
            end as int));
        assert(b == connect_body(xv, version));
    }
    Some(x)
}


/// What the encoder writes is a frame the decoder accepts, for every packet
/// that keeps its fields in its version: so `decode_packet` reads back
/// exactly the packet `encode_packet` wrote, and consumes all its bytes.
pub proof fn law_encoding_is_accepted(q: PacketV, version: u8)
    requires
        representable(q, version),
        packet_ok(q, version),
    ensures
        frame_accepts(q, packet_bytes(q, version), version),
{
    lemma_canonical_accepted(q, version);
    let body = packet_body(q, version);
    assert(body_accepts(q, body, version));
}

/// Input may arrive in pieces: every proper prefix of a packet's encoding
/// is the beginning of a frame (so the parser waits for more bytes and
/// keeps them), and the whole encoding is a frame of that packet.
pub proof fn law_fragmented_input(q: PacketV, version: u8, k: int)
    requires
        representable(q, version),
        packet_ok(q, version),
        0 < k < packet_bytes(q, version).len(),
    ensures
        header_cut(packet_bytes(q, version).take(k)) || frame_cut(packet_bytes(q, version).take(k)),
        frame_accepts(q, packet_bytes(q, version), version),
{
    let buf = packet_bytes(q, version).take(k);
    lemma_prefix_parts(buf, q, version);
    let x = packet_body(q, version).len() as u32;
    if at(buf, 1, buf.len() as int, vbi(x)) {
        assert(x <= VBI_MAX);
        assert(frame_cut(buf));
    }
    law_encoding_is_accepted(q, version);
}

/// Every nonempty proper prefix of an accepted frame only begins a frame:
/// it is cut inside the Remaining Length or announces more bytes than it
/// holds, so the parser waits for the rest.
pub proof fn lemma_accepted_prefix_cut(buf: Seq<u8>, q: PacketV, n: int, m: int, version: u8)
    requires
        0 < n <= buf.len(),
        frame_accepts(q, buf.take(n), version),
        0 < m < n,
    ensures
        header_cut(buf.take(m)) || frame_cut(buf.take(m)),
{
    lemma_accepted_frame(buf, q, n, version);
    let body = choose|body: Seq<u8>| #[trigger] body_accepts(q, body, version) && body.len() <= VBI_MAX
        && buf[0] == first_byte(q) && at(buf, 1, buf.len() as int, vbi(body.len() as u32))
        && n == 1 + vbi(body.len() as u32).len() + body.len()
        && buf.subrange(1 + vbi(body.len() as u32).len() as int, n) == body;
    let l = body.len() as u32;
    let v = vbi(l);
    lemma_vbi_len(l);
    let p = buf.take(m);
    let e: int = 1 + v.len() as int;
    if m >= e {
        assert(p.subrange(1, e) == buf.subrange(1, e));
        assert(at(p, 1, p.len() as int, vbi(l)));
        assert(frame_cut(p));
    } else {
        assert forall|k: int| 1 <= k < p.len() implies #[trigger] p[k] >= 128 by {
            assert(p[k] == buf.subrange(1, e)[k - 1]);
            lemma_vbi_high_bits(l, k - 1);
        }
        assert(header_cut(p));
    }
}

/// A nonempty buffer whose extension is cut short is cut short itself: the
/// beginning of a frame shows in its first bytes.
pub proof fn lemma_cut_prefix(buf: Seq<u8>, more: Seq<u8>)
    requires
        buf.len() > 0,
        header_cut(buf + more) || frame_cut(buf + more),
    ensures
        header_cut(buf) || frame_cut(buf),
{
    let x = buf + more;
    if header_cut(x) {
        assert forall|k: int| 1 <= k < buf.len() implies #[trigger] buf[k] >= 128 by {
            assert(x[k] == buf[k]);
        }
    } else {
        let y = choose|y: u32| y <= VBI_MAX && #[trigger] at(x, 1, x.len() as int, vbi(y)) && x.len() < 1 + vbi(y).len() + y;
        lemma_vbi_len(y);
        let e: int = 1 + vbi(y).len() as int;
        if buf.len() >= e {
            assert(buf.subrange(1, e) == x.subrange(1, e));
            assert(at(buf, 1, buf.len() as int, vbi(y)));
        } else {
            assert forall|k: int| 1 <= k < buf.len() implies #[trigger] buf[k] >= 128 by {
                assert(buf[k] == x.subrange(1, e)[k - 1]);
                lemma_vbi_high_bits(y, k - 1);
            }
        }
    }
}

} // verus!
