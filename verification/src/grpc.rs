//! The protobuf form of MQTT 5 properties, as the gRPC relay carries them,
//! and the conversions between it and the wire form.

use vstd::prelude::*;
use crate::codec::property::Property;

verus! {

/// A user property of the protobuf form.
#[derive(Debug, Clone, PartialEq)]
pub struct PbUserProperty {
    pub key: String,
    pub value: String,
}

/// The value of a protobuf property. Flags are booleans, and two-byte and
/// one-byte integers are widened to four bytes.
#[derive(Debug, Clone, PartialEq)]
pub enum PbPropertyType {
    PayloadFormatIndicator(bool),
    MessageExpiryInterval(u32),
    ContentType(String),
    ResponseTopic(String),
    CorrelationData(Vec<u8>),
    SubscriptionIdentifier(u32),
    SessionExpiryInterval(u32),
    AssignedClientIdentifier(String),
    ServerKeepAlive(u32),
    AuthenticationMethod(String),
    AuthenticationData(Vec<u8>),
    RequestProblemInformation(bool),
    WillDelayInterval(u32),
    RequestResponseInformation(bool),
    ResponseInformation(String),
    ServerReference(String),
    ReasonString(String),
    ReceiveMaximum(u32),
    TopicAliasMaximum(u32),
    TopicAlias(u32),
    MaximumQos(u32),
    RetainAvailable(bool),
    UserProperty(PbUserProperty),
    MaximumPacketSize(u32),
    WildcardSubscriptionAvailable(bool),
    SubscriptionIdentifiersAvailable(bool),
    SharedSubscriptionAvailable(bool),
}

/// A protobuf property; its value may be absent.
#[derive(Debug, Clone, PartialEq)]
pub struct PbProperty {
    pub property_type: Option<PbPropertyType>,
}

/// The protobuf value of a property.
pub open spec fn pb_type_of(p: Property) -> PbPropertyType {
    match p {
        Property::PayloadFormatIndicator(v) => PbPropertyType::PayloadFormatIndicator(v != 0),
        Property::MessageExpiryInterval(v) => PbPropertyType::MessageExpiryInterval(v),
        Property::ContentType(v) => PbPropertyType::ContentType(v),
        Property::ResponseTopic(v) => PbPropertyType::ResponseTopic(v),
        Property::CorrelationData(v) => PbPropertyType::CorrelationData(v),
        Property::SubscriptionIdentifier(v) => PbPropertyType::SubscriptionIdentifier(v),
        Property::SessionExpiryInterval(v) => PbPropertyType::SessionExpiryInterval(v),
        Property::AssignedClientIdentifier(v) => PbPropertyType::AssignedClientIdentifier(v),
        Property::ServerKeepAlive(v) => PbPropertyType::ServerKeepAlive(v as u32),
        Property::AuthenticationMethod(v) => PbPropertyType::AuthenticationMethod(v),
        Property::AuthenticationData(v) => PbPropertyType::AuthenticationData(v),
        Property::RequestProblemInformation(v) => PbPropertyType::RequestProblemInformation(v != 0),
        Property::WillDelayInterval(v) => PbPropertyType::WillDelayInterval(v),
        Property::RequestResponseInformation(v) => PbPropertyType::RequestResponseInformation(v != 0),
        Property::ResponseInformation(v) => PbPropertyType::ResponseInformation(v),
        Property::ServerReference(v) => PbPropertyType::ServerReference(v),
        Property::ReasonString(v) => PbPropertyType::ReasonString(v),
        Property::ReceiveMaximum(v) => PbPropertyType::ReceiveMaximum(v as u32),
        Property::TopicAliasMaximum(v) => PbPropertyType::TopicAliasMaximum(v as u32),
        Property::TopicAlias(v) => PbPropertyType::TopicAlias(v as u32),
        Property::MaximumQoS(v) => PbPropertyType::MaximumQos(v as u32),
        Property::RetainAvailable(v) => PbPropertyType::RetainAvailable(v != 0),
        Property::UserProperty(key, value) => PbPropertyType::UserProperty(PbUserProperty { key, value }),
        Property::MaximumPacketSize(v) => PbPropertyType::MaximumPacketSize(v),
        Property::WildcardSubscriptionAvailable(v) => PbPropertyType::WildcardSubscriptionAvailable(v != 0),
        Property::SubscriptionIdentifierAvailable(v) => PbPropertyType::SubscriptionIdentifiersAvailable(v != 0),
        Property::SharedSubscriptionAvailable(v) => PbPropertyType::SharedSubscriptionAvailable(v != 0),
    }
}

/// The protobuf form of a property.
pub open spec fn pb_of(p: Property) -> PbProperty {
    PbProperty { property_type: Some(pb_type_of(p)) }
}

/// The property a protobuf value stands for: flags become 1 or 0, and
/// widened integers are cut back to their width.
pub open spec fn property_of_type(t: PbPropertyType) -> Property {
    match t {
        PbPropertyType::PayloadFormatIndicator(v) => Property::PayloadFormatIndicator(if v { 1 } else { 0 }),
        PbPropertyType::MessageExpiryInterval(v) => Property::MessageExpiryInterval(v),
        PbPropertyType::ContentType(v) => Property::ContentType(v),
        PbPropertyType::ResponseTopic(v) => Property::ResponseTopic(v),
        PbPropertyType::CorrelationData(v) => Property::CorrelationData(v),
        PbPropertyType::SubscriptionIdentifier(v) => Property::SubscriptionIdentifier(v),
        PbPropertyType::SessionExpiryInterval(v) => Property::SessionExpiryInterval(v),
        PbPropertyType::AssignedClientIdentifier(v) => Property::AssignedClientIdentifier(v),
        PbPropertyType::ServerKeepAlive(v) => Property::ServerKeepAlive(v as u16),
        PbPropertyType::AuthenticationMethod(v) => Property::AuthenticationMethod(v),
        PbPropertyType::AuthenticationData(v) => Property::AuthenticationData(v),
        PbPropertyType::RequestProblemInformation(v) => Property::RequestProblemInformation(if v { 1 } else { 0 }),
        PbPropertyType::WillDelayInterval(v) => Property::WillDelayInterval(v),
        PbPropertyType::RequestResponseInformation(v) => Property::RequestResponseInformation(if v { 1 } else { 0 }),
        PbPropertyType::ResponseInformation(v) => Property::ResponseInformation(v),
        PbPropertyType::ServerReference(v) => Property::ServerReference(v),
        PbPropertyType::ReasonString(v) => Property::ReasonString(v),
        PbPropertyType::ReceiveMaximum(v) => Property::ReceiveMaximum(v as u16),
        PbPropertyType::TopicAliasMaximum(v) => Property::TopicAliasMaximum(v as u16),
        PbPropertyType::TopicAlias(v) => Property::TopicAlias(v as u16),
        PbPropertyType::MaximumQos(v) => Property::MaximumQoS(v as u8),
        PbPropertyType::RetainAvailable(v) => Property::RetainAvailable(if v { 1 } else { 0 }),
        PbPropertyType::UserProperty(u) => Property::UserProperty(u.key, u.value),
        PbPropertyType::MaximumPacketSize(v) => Property::MaximumPacketSize(v),
        PbPropertyType::WildcardSubscriptionAvailable(v) => Property::WildcardSubscriptionAvailable(if v { 1 } else { 0 }),
        PbPropertyType::SubscriptionIdentifiersAvailable(v) => Property::SubscriptionIdentifierAvailable(if v { 1 } else { 0 }),
        PbPropertyType::SharedSubscriptionAvailable(v) => Property::SharedSubscriptionAvailable(if v { 1 } else { 0 }),
    }
}

/// The property a protobuf property stands for; none when its value is absent.
pub open spec fn property_of(p: PbProperty) -> Option<Property> {
    match p.property_type {
        Some(t) => Some(property_of_type(t)),
        None => None,
    }
}

/// The properties that a list of protobuf properties stands for, in order,
/// those without a value left out.
pub open spec fn properties_of(ps: Seq<PbProperty>) -> Seq<Property>
    decreases ps.len(),
{
    if ps.len() == 0 {
        seq![]
    } else {
        match property_of(ps.last()) {
            Some(p) => properties_of(ps.drop_last()).push(p),
            None => properties_of(ps.drop_last()),
        }
    }
}

/// Whether every flag property holds 0 or 1, the values its protobuf
/// boolean can give back.
pub open spec fn flags_ok(p: Property) -> bool {
    match p {
        Property::PayloadFormatIndicator(v) => v <= 1,
        Property::RequestProblemInformation(v) => v <= 1,
        Property::RequestResponseInformation(v) => v <= 1,
        Property::RetainAvailable(v) => v <= 1,
        Property::WildcardSubscriptionAvailable(v) => v <= 1,
        Property::SubscriptionIdentifierAvailable(v) => v <= 1,
        Property::SharedSubscriptionAvailable(v) => v <= 1,
        _ => true,
    }
}

/// Whether a protobuf property has a value, and each widened integer fits
/// the width it stands for.
pub open spec fn pb_fits(p: PbProperty) -> bool {
    match p.property_type {
        Some(t) => match t {
            PbPropertyType::ServerKeepAlive(v) => v <= 0xFFFF,
            PbPropertyType::ReceiveMaximum(v) => v <= 0xFFFF,
            PbPropertyType::TopicAliasMaximum(v) => v <= 0xFFFF,
            PbPropertyType::TopicAlias(v) => v <= 0xFFFF,
            PbPropertyType::MaximumQos(v) => v <= 0xFF,
            _ => true,
        },
        None => false,
    }
}

/// The protobuf form of a property.
pub fn property_to_pb(p: Property) -> (r: PbProperty)
    ensures
        r == pb_of(p),
{
    let t = match p {
        Property::PayloadFormatIndicator(v) => PbPropertyType::PayloadFormatIndicator(v != 0),
        Property::MessageExpiryInterval(v) => PbPropertyType::MessageExpiryInterval(v),
        Property::ContentType(v) => PbPropertyType::ContentType(v),
        Property::ResponseTopic(v) => PbPropertyType::ResponseTopic(v),
        Property::CorrelationData(v) => PbPropertyType::CorrelationData(v),
        Property::SubscriptionIdentifier(v) => PbPropertyType::SubscriptionIdentifier(v),
        Property::SessionExpiryInterval(v) => PbPropertyType::SessionExpiryInterval(v),
        Property::AssignedClientIdentifier(v) => PbPropertyType::AssignedClientIdentifier(v),
        Property::ServerKeepAlive(v) => PbPropertyType::ServerKeepAlive(v as u32),
        Property::AuthenticationMethod(v) => PbPropertyType::AuthenticationMethod(v),
        Property::AuthenticationData(v) => PbPropertyType::AuthenticationData(v),
        Property::RequestProblemInformation(v) => PbPropertyType::RequestProblemInformation(v != 0),
        Property::WillDelayInterval(v) => PbPropertyType::WillDelayInterval(v),
        Property::RequestResponseInformation(v) => PbPropertyType::RequestResponseInformation(v != 0),
        Property::ResponseInformation(v) => PbPropertyType::ResponseInformation(v),
        Property::ServerReference(v) => PbPropertyType::ServerReference(v),
        Property::ReasonString(v) => PbPropertyType::ReasonString(v),
        Property::ReceiveMaximum(v) => PbPropertyType::ReceiveMaximum(v as u32),
        Property::TopicAliasMaximum(v) => PbPropertyType::TopicAliasMaximum(v as u32),
        Property::TopicAlias(v) => PbPropertyType::TopicAlias(v as u32),
        Property::MaximumQoS(v) => PbPropertyType::MaximumQos(v as u32),
        Property::RetainAvailable(v) => PbPropertyType::RetainAvailable(v != 0),
        Property::UserProperty(key, value) => PbPropertyType::UserProperty(PbUserProperty { key, value }),
        Property::MaximumPacketSize(v) => PbPropertyType::MaximumPacketSize(v),
        Property::WildcardSubscriptionAvailable(v) => PbPropertyType::WildcardSubscriptionAvailable(v != 0),
        Property::SubscriptionIdentifierAvailable(v) => PbPropertyType::SubscriptionIdentifiersAvailable(v != 0),
        Property::SharedSubscriptionAvailable(v) => PbPropertyType::SharedSubscriptionAvailable(v != 0),
    };
    PbProperty { property_type: Some(t) }
}

/// The property a protobuf property stands for; `None` when it has no value.
pub fn property_from_pb(p: PbProperty) -> (r: Option<Property>)
    ensures
        r == property_of(p),
{
    match p.property_type {
        Some(t) => Some(match t {
            PbPropertyType::PayloadFormatIndicator(v) => Property::PayloadFormatIndicator(if v { 1 } else { 0 }),
            PbPropertyType::MessageExpiryInterval(v) => Property::MessageExpiryInterval(v),
            PbPropertyType::ContentType(v) => Property::ContentType(v),
            PbPropertyType::ResponseTopic(v) => Property::ResponseTopic(v),
            PbPropertyType::CorrelationData(v) => Property::CorrelationData(v),
            PbPropertyType::SubscriptionIdentifier(v) => Property::SubscriptionIdentifier(v),
            PbPropertyType::SessionExpiryInterval(v) => Property::SessionExpiryInterval(v),
            PbPropertyType::AssignedClientIdentifier(v) => Property::AssignedClientIdentifier(v),
            PbPropertyType::ServerKeepAlive(v) => Property::ServerKeepAlive(v as u16),
            PbPropertyType::AuthenticationMethod(v) => Property::AuthenticationMethod(v),
            PbPropertyType::AuthenticationData(v) => Property::AuthenticationData(v),
            PbPropertyType::RequestProblemInformation(v) => Property::RequestProblemInformation(if v { 1 } else { 0 }),
            PbPropertyType::WillDelayInterval(v) => Property::WillDelayInterval(v),
            PbPropertyType::RequestResponseInformation(v) => Property::RequestResponseInformation(if v { 1 } else { 0 }),
            PbPropertyType::ResponseInformation(v) => Property::ResponseInformation(v),
            PbPropertyType::ServerReference(v) => Property::ServerReference(v),
            PbPropertyType::ReasonString(v) => Property::ReasonString(v),
            PbPropertyType::ReceiveMaximum(v) => Property::ReceiveMaximum(v as u16),
            PbPropertyType::TopicAliasMaximum(v) => Property::TopicAliasMaximum(v as u16),
            PbPropertyType::TopicAlias(v) => Property::TopicAlias(v as u16),
            PbPropertyType::MaximumQos(v) => Property::MaximumQoS(v as u8),
            PbPropertyType::RetainAvailable(v) => Property::RetainAvailable(if v { 1 } else { 0 }),
            PbPropertyType::UserProperty(u) => Property::UserProperty(u.key, u.value),
            PbPropertyType::MaximumPacketSize(v) => Property::MaximumPacketSize(v),
            PbPropertyType::WildcardSubscriptionAvailable(v) => Property::WildcardSubscriptionAvailable(if v { 1 } else { 0 }),
            PbPropertyType::SubscriptionIdentifiersAvailable(v) => Property::SubscriptionIdentifierAvailable(if v { 1 } else { 0 }),
            PbPropertyType::SharedSubscriptionAvailable(v) => Property::SharedSubscriptionAvailable(if v { 1 } else { 0 }),
        }),
        None => None,
    }
}

/// The protobuf forms of a list of properties, in order.
pub fn convert_properties_to_pb(properties: Vec<Property>) -> (r: Vec<PbProperty>)
    ensures
        r@ == properties@.map_values(|p: Property| pb_of(p)),
{
    let mut properties = properties;
    let ghost all = properties@;
    let mut out: Vec<PbProperty> = Vec::new();
    let ghost mut done: Seq<Property> = seq![];
    while properties.len() > 0
        invariant
            all == done + properties@,
            out@ == done.map_values(|p: Property| pb_of(p)),
        decreases properties@.len(),
    {
        let p = properties.remove(0);
        let ghost q = p;
        out.push(property_to_pb(p));
        proof {
            assert(done.push(q).map_values(|p: Property| pb_of(p)) == done.map_values(|p: Property| pb_of(p)).push(pb_of(q)));
            done = done.push(q);
        }
    }
    assert(done == all);
    out
}

/// The properties a list of protobuf properties stands for, in order;
/// those without a value are left out.
pub fn convert_properties_from_pb(properties: Vec<PbProperty>) -> (r: Vec<Property>)
    ensures
        r@ == properties_of(properties@),
{
    let mut properties = properties;
    let ghost all = properties@;
    let mut out: Vec<Property> = Vec::new();
    let ghost mut done: Seq<PbProperty> = seq![];
    while properties.len() > 0
        invariant
            all == done + properties@,
            out@ == properties_of(done),
        decreases properties@.len(),
    {
        let p = properties.remove(0);
        let ghost q = p;
        match property_from_pb(p) {
            Some(x) => out.push(x),
            None => {},
        }
        proof {
            assert((done.push(q)).drop_last() == done);
            done = done.push(q);
        }
    }
    assert(done == all);
    out
}

/// A property converted to protobuf and back is the same property, as long
/// as its flags are 0 or 1 (a flag of 2 comes back as 1).
pub proof fn law_pb_round_trip(p: Property)
    requires
        flags_ok(p),
    ensures
        property_of(pb_of(p)) == Some(p),
{
}

/// A protobuf property that has a value, and whose widened integers fit
/// their width, converted to a property and back is the same.
pub proof fn law_pb_reverse_round_trip(q: PbProperty)
    requires
        pb_fits(q),
    ensures
        property_of(q) matches Some(p) && pb_of(p) == q,
{
}

/// A list of properties converted to protobuf and back is the same list,
/// as long as every flag is 0 or 1.
pub proof fn law_pb_list_round_trip(ps: Seq<Property>)
    requires
        forall|i: int| 0 <= i < ps.len() ==> flags_ok(#[trigger] ps[i]),
    ensures
        properties_of(ps.map_values(|p: Property| pb_of(p))) == ps,
    decreases ps.len(),
{
    if ps.len() > 0 {
        let d = ps.drop_last();
        law_pb_list_round_trip(d);
        law_pb_round_trip(ps.last());
        assert(ps.map_values(|p: Property| pb_of(p)).drop_last() == d.map_values(|p: Property| pb_of(p)));
        assert(d.push(ps.last()) == ps);
    }
}

/// Each property keeps its kind in protobuf form: the value goes under the
/// protobuf field of the same name, flags as booleans (any nonzero byte is
/// true) and narrow integers widened to four bytes.
pub proof fn law_pb_keeps_kind(p: Property)
    ensures
        p matches Property::PayloadFormatIndicator(v) ==> pb_of(p).property_type == Some(PbPropertyType::PayloadFormatIndicator(v != 0)),
        p matches Property::MessageExpiryInterval(v) ==> pb_of(p).property_type == Some(PbPropertyType::MessageExpiryInterval(v)),
        p matches Property::ContentType(v) ==> pb_of(p).property_type == Some(PbPropertyType::ContentType(v)),
        p matches Property::ResponseTopic(v) ==> pb_of(p).property_type == Some(PbPropertyType::ResponseTopic(v)),
        p matches Property::CorrelationData(v) ==> pb_of(p).property_type == Some(PbPropertyType::CorrelationData(v)),
        p matches Property::SubscriptionIdentifier(v) ==> pb_of(p).property_type == Some(PbPropertyType::SubscriptionIdentifier(v)),
        p matches Property::SessionExpiryInterval(v) ==> pb_of(p).property_type == Some(PbPropertyType::SessionExpiryInterval(v)),
        p matches Property::AssignedClientIdentifier(v) ==> pb_of(p).property_type == Some(PbPropertyType::AssignedClientIdentifier(v)),
        p matches Property::ServerKeepAlive(v) ==> pb_of(p).property_type == Some(PbPropertyType::ServerKeepAlive(v as u32)),
        p matches Property::AuthenticationMethod(v) ==> pb_of(p).property_type == Some(PbPropertyType::AuthenticationMethod(v)),
        p matches Property::AuthenticationData(v) ==> pb_of(p).property_type == Some(PbPropertyType::AuthenticationData(v)),
        p matches Property::RequestProblemInformation(v) ==> pb_of(p).property_type == Some(PbPropertyType::RequestProblemInformation(v != 0)),
        p matches Property::WillDelayInterval(v) ==> pb_of(p).property_type == Some(PbPropertyType::WillDelayInterval(v)),
        p matches Property::RequestResponseInformation(v) ==> pb_of(p).property_type == Some(PbPropertyType::RequestResponseInformation(v != 0)),
        p matches Property::ResponseInformation(v) ==> pb_of(p).property_type == Some(PbPropertyType::ResponseInformation(v)),
        p matches Property::ServerReference(v) ==> pb_of(p).property_type == Some(PbPropertyType::ServerReference(v)),
        p matches Property::ReasonString(v) ==> pb_of(p).property_type == Some(PbPropertyType::ReasonString(v)),
        p matches Property::ReceiveMaximum(v) ==> pb_of(p).property_type == Some(PbPropertyType::ReceiveMaximum(v as u32)),
        p matches Property::TopicAliasMaximum(v) ==> pb_of(p).property_type == Some(PbPropertyType::TopicAliasMaximum(v as u32)),
        p matches Property::TopicAlias(v) ==> pb_of(p).property_type == Some(PbPropertyType::TopicAlias(v as u32)),
        p matches Property::MaximumQoS(v) ==> pb_of(p).property_type == Some(PbPropertyType::MaximumQos(v as u32)),
        p matches Property::RetainAvailable(v) ==> pb_of(p).property_type == Some(PbPropertyType::RetainAvailable(v != 0)),
        p matches Property::MaximumPacketSize(v) ==> pb_of(p).property_type == Some(PbPropertyType::MaximumPacketSize(v)),
        p matches Property::WildcardSubscriptionAvailable(v) ==> pb_of(p).property_type == Some(PbPropertyType::WildcardSubscriptionAvailable(v != 0)),
        p matches Property::SubscriptionIdentifierAvailable(v) ==> pb_of(p).property_type == Some(PbPropertyType::SubscriptionIdentifiersAvailable(v != 0)),
        p matches Property::SharedSubscriptionAvailable(v) ==> pb_of(p).property_type == Some(PbPropertyType::SharedSubscriptionAvailable(v != 0)),
        p matches Property::UserProperty(k, v) ==> pb_of(p).property_type == Some(PbPropertyType::UserProperty(
            PbUserProperty { key: k, value: v },
        )),
{
}

/// Each protobuf property stands for the property of the same kind: flags
/// become 1 or 0, and widened integers are cut back to their width.
pub proof fn law_pb_type_keeps_kind(t: PbPropertyType)
    ensures
        t matches PbPropertyType::PayloadFormatIndicator(v) ==> property_of_type(t) == Property::PayloadFormatIndicator(if v { 1u8 } else { 0u8 }),
        t matches PbPropertyType::MessageExpiryInterval(v) ==> property_of_type(t) == Property::MessageExpiryInterval(v),
        t matches PbPropertyType::ContentType(v) ==> property_of_type(t) == Property::ContentType(v),
        t matches PbPropertyType::ResponseTopic(v) ==> property_of_type(t) == Property::ResponseTopic(v),
        t matches PbPropertyType::CorrelationData(v) ==> property_of_type(t) == Property::CorrelationData(v),
        t matches PbPropertyType::SubscriptionIdentifier(v) ==> property_of_type(t) == Property::SubscriptionIdentifier(v),
        t matches PbPropertyType::SessionExpiryInterval(v) ==> property_of_type(t) == Property::SessionExpiryInterval(v),
        t matches PbPropertyType::AssignedClientIdentifier(v) ==> property_of_type(t) == Property::AssignedClientIdentifier(v),
        t matches PbPropertyType::ServerKeepAlive(v) ==> property_of_type(t) == Property::ServerKeepAlive(v as u16),
        t matches PbPropertyType::AuthenticationMethod(v) ==> property_of_type(t) == Property::AuthenticationMethod(v),
        t matches PbPropertyType::AuthenticationData(v) ==> property_of_type(t) == Property::AuthenticationData(v),
        t matches PbPropertyType::RequestProblemInformation(v) ==> property_of_type(t) == Property::RequestProblemInformation(if v { 1u8 } else { 0u8 }),
        t matches PbPropertyType::WillDelayInterval(v) ==> property_of_type(t) == Property::WillDelayInterval(v),
        t matches PbPropertyType::RequestResponseInformation(v) ==> property_of_type(t) == Property::RequestResponseInformation(if v { 1u8 } else { 0u8 }),
        t matches PbPropertyType::ResponseInformation(v) ==> property_of_type(t) == Property::ResponseInformation(v),
        t matches PbPropertyType::ServerReference(v) ==> property_of_type(t) == Property::ServerReference(v),
        t matches PbPropertyType::ReasonString(v) ==> property_of_type(t) == Property::ReasonString(v),
        t matches PbPropertyType::ReceiveMaximum(v) ==> property_of_type(t) == Property::ReceiveMaximum(v as u16),
        t matches PbPropertyType::TopicAliasMaximum(v) ==> property_of_type(t) == Property::TopicAliasMaximum(v as u16),
        t matches PbPropertyType::TopicAlias(v) ==> property_of_type(t) == Property::TopicAlias(v as u16),
        t matches PbPropertyType::MaximumQos(v) ==> property_of_type(t) == Property::MaximumQoS(v as u8),
        t matches PbPropertyType::RetainAvailable(v) ==> property_of_type(t) == Property::RetainAvailable(if v { 1u8 } else { 0u8 }),
        t matches PbPropertyType::MaximumPacketSize(v) ==> property_of_type(t) == Property::MaximumPacketSize(v),
        t matches PbPropertyType::WildcardSubscriptionAvailable(v) ==> property_of_type(t) == Property::WildcardSubscriptionAvailable(if v { 1u8 } else { 0u8 }),
        t matches PbPropertyType::SubscriptionIdentifiersAvailable(v) ==> property_of_type(t) == Property::SubscriptionIdentifierAvailable(if v { 1u8 } else { 0u8 }),
        t matches PbPropertyType::SharedSubscriptionAvailable(v) ==> property_of_type(t) == Property::SharedSubscriptionAvailable(if v { 1u8 } else { 0u8 }),
        t matches PbPropertyType::UserProperty(u) ==> property_of_type(t) == Property::UserProperty(u.key, u.value),
{
}

} // verus!
