//! MQTT 5 properties: the identifier table, and the encoding of a single
//! property and of a length-prefixed property list.

use vstd::prelude::*;
use crate::codec::wire::{
    at, be16, be32, bin_field, bin_ok, copy_bytes, get_bin, get_str, get_u16, get_u32, get_u8, get_vbi,
    lemma_at_bound, lemma_at_split, put_bin, put_bytes, put_str, put_u16, put_u32, put_vbi, str_field, str_ok, vbi,
    VBI_MAX, VbiRead,
};

verus! {

/// The wire type of a property value.
#[derive(Clone, Copy, PartialEq, Eq, Structural, Debug)]
pub enum PropKind {
    Byte,
    Two,
    Four,
    Var,
    Str,
    Bin,
    Pair,
}

/// The abstract value of a property.
pub enum PropValue {
    Byte(u8),
    Two(u16),
    Four(u32),
    Var(u32),
    Str(Seq<char>),
    Bin(Seq<u8>),
    Pair(Seq<char>, Seq<char>),
}

impl PropValue {
    pub open spec fn kind(self) -> PropKind {
        match self {
            PropValue::Byte(_) => PropKind::Byte,
            PropValue::Two(_) => PropKind::Two,
            PropValue::Four(_) => PropKind::Four,
            PropValue::Var(_) => PropKind::Var,
            PropValue::Str(_) => PropKind::Str,
            PropValue::Bin(_) => PropKind::Bin,
            PropValue::Pair(_, _) => PropKind::Pair,
        }
    }
}

/// The abstract view of a property: its identifier and its value.
pub struct PropertyV {
    pub id: u8,
    pub value: PropValue,
}

/// Whether a value fits its encoding (length prefixes, Variable Byte Integer range).
pub open spec fn value_ok(v: PropValue) -> bool {
    match v {
        PropValue::Var(x) => x <= VBI_MAX,
        PropValue::Str(s) => str_ok(s),
        PropValue::Bin(b) => bin_ok(b),
        PropValue::Pair(k, w) => str_ok(k) && str_ok(w),
        _ => true,
    }
}

/// The encoding of a property value.
pub open spec fn value_bytes(v: PropValue) -> Seq<u8> {
    match v {
        PropValue::Byte(x) => seq![x],
        PropValue::Two(x) => be16(x),
        PropValue::Four(x) => be32(x),
        PropValue::Var(x) => vbi(x),
        PropValue::Str(s) => str_field(s),
        PropValue::Bin(b) => bin_field(b),
        PropValue::Pair(k, w) => str_field(k) + str_field(w),
    }
}

/// A property whose value has the type its identifier takes and fits its encoding.
pub open spec fn prop_valid(p: PropertyV) -> bool {
    kind_of(p.id) == Some(p.value.kind()) && value_ok(p.value)
}

/// The encoding of a property: identifier byte, then value.
pub open spec fn prop_bytes(p: PropertyV) -> Seq<u8> {
    seq![p.id] + value_bytes(p.value)
}

/// A raw property value read off the wire.
pub enum RawValue {
    Byte(u8),
    Two(u16),
    Four(u32),
    Var(u32),
    Str(String),
    Bin(Vec<u8>),
    Pair(String, String),
}

impl View for RawValue {
    type V = PropValue;

    open spec fn view(&self) -> PropValue {
        match self {
            RawValue::Byte(x) => PropValue::Byte(*x),
            RawValue::Two(x) => PropValue::Two(*x),
            RawValue::Four(x) => PropValue::Four(*x),
            RawValue::Var(x) => PropValue::Var(*x),
            RawValue::Str(s) => PropValue::Str(s@),
            RawValue::Bin(b) => PropValue::Bin(b@),
            RawValue::Pair(k, w) => PropValue::Pair(k@, w@),
        }
    }
}

/// An MQTT 5 property, one variant per property identifier.
#[derive(Debug, Clone, PartialEq)]
pub enum Property {
    PayloadFormatIndicator(u8),
    MessageExpiryInterval(u32),
    ContentType(String),
    ResponseTopic(String),
    CorrelationData(Vec<u8>),
    SubscriptionIdentifier(u32),
    SessionExpiryInterval(u32),
    AssignedClientIdentifier(String),
    ServerKeepAlive(u16),
    AuthenticationMethod(String),
    AuthenticationData(Vec<u8>),
    RequestProblemInformation(u8),
    WillDelayInterval(u32),
    RequestResponseInformation(u8),
    ResponseInformation(String),
    ServerReference(String),
    ReasonString(String),
    ReceiveMaximum(u16),
    TopicAliasMaximum(u16),
    TopicAlias(u16),
    MaximumQoS(u8),
    RetainAvailable(u8),
    UserProperty(String, String),
    MaximumPacketSize(u32),
    WildcardSubscriptionAvailable(u8),
    SubscriptionIdentifierAvailable(u8),
    SharedSubscriptionAvailable(u8),
}

impl View for Property {
    type V = PropertyV;

    open spec fn view(&self) -> PropertyV {
        match self {
            Property::PayloadFormatIndicator(v) => PropertyV { id: 0x01, value: PropValue::Byte(*v) },
            Property::MessageExpiryInterval(v) => PropertyV { id: 0x02, value: PropValue::Four(*v) },
            Property::ContentType(v) => PropertyV { id: 0x03, value: PropValue::Str(v@) },
            Property::ResponseTopic(v) => PropertyV { id: 0x08, value: PropValue::Str(v@) },
            Property::CorrelationData(v) => PropertyV { id: 0x09, value: PropValue::Bin(v@) },
            Property::SubscriptionIdentifier(v) => PropertyV { id: 0x0B, value: PropValue::Var(*v) },
            Property::SessionExpiryInterval(v) => PropertyV { id: 0x11, value: PropValue::Four(*v) },
            Property::AssignedClientIdentifier(v) => PropertyV { id: 0x12, value: PropValue::Str(v@) },
            Property::ServerKeepAlive(v) => PropertyV { id: 0x13, value: PropValue::Two(*v) },
            Property::AuthenticationMethod(v) => PropertyV { id: 0x15, value: PropValue::Str(v@) },
            Property::AuthenticationData(v) => PropertyV { id: 0x16, value: PropValue::Bin(v@) },
            Property::RequestProblemInformation(v) => PropertyV { id: 0x17, value: PropValue::Byte(*v) },
            Property::WillDelayInterval(v) => PropertyV { id: 0x18, value: PropValue::Four(*v) },
            Property::RequestResponseInformation(v) => PropertyV { id: 0x19, value: PropValue::Byte(*v) },
            Property::ResponseInformation(v) => PropertyV { id: 0x1A, value: PropValue::Str(v@) },
            Property::ServerReference(v) => PropertyV { id: 0x1C, value: PropValue::Str(v@) },
            Property::ReasonString(v) => PropertyV { id: 0x1F, value: PropValue::Str(v@) },
            Property::ReceiveMaximum(v) => PropertyV { id: 0x21, value: PropValue::Two(*v) },
            Property::TopicAliasMaximum(v) => PropertyV { id: 0x22, value: PropValue::Two(*v) },
            Property::TopicAlias(v) => PropertyV { id: 0x23, value: PropValue::Two(*v) },
            Property::MaximumQoS(v) => PropertyV { id: 0x24, value: PropValue::Byte(*v) },
            Property::RetainAvailable(v) => PropertyV { id: 0x25, value: PropValue::Byte(*v) },
            Property::UserProperty(v, w) => PropertyV { id: 0x26, value: PropValue::Pair(v@, w@) },
            Property::MaximumPacketSize(v) => PropertyV { id: 0x27, value: PropValue::Four(*v) },
            Property::WildcardSubscriptionAvailable(v) => PropertyV { id: 0x28, value: PropValue::Byte(*v) },
            Property::SubscriptionIdentifierAvailable(v) => PropertyV { id: 0x29, value: PropValue::Byte(*v) },
            Property::SharedSubscriptionAvailable(v) => PropertyV { id: 0x2A, value: PropValue::Byte(*v) },
        }
    }
}

/// The value type that the MQTT 5 table assigns to a property identifier.
pub open spec fn kind_of(id: u8) -> Option<PropKind> {
    if id == 0x01 { Some(PropKind::Byte) }
    else if id == 0x02 { Some(PropKind::Four) }
    else if id == 0x03 { Some(PropKind::Str) }
    else if id == 0x08 { Some(PropKind::Str) }
    else if id == 0x09 { Some(PropKind::Bin) }
    else if id == 0x0B { Some(PropKind::Var) }
    else if id == 0x11 { Some(PropKind::Four) }
    else if id == 0x12 { Some(PropKind::Str) }
    else if id == 0x13 { Some(PropKind::Two) }
    else if id == 0x15 { Some(PropKind::Str) }
    else if id == 0x16 { Some(PropKind::Bin) }
    else if id == 0x17 { Some(PropKind::Byte) }
    else if id == 0x18 { Some(PropKind::Four) }
    else if id == 0x19 { Some(PropKind::Byte) }
    else if id == 0x1A { Some(PropKind::Str) }
    else if id == 0x1C { Some(PropKind::Str) }
    else if id == 0x1F { Some(PropKind::Str) }
    else if id == 0x21 { Some(PropKind::Two) }
    else if id == 0x22 { Some(PropKind::Two) }
    else if id == 0x23 { Some(PropKind::Two) }
    else if id == 0x24 { Some(PropKind::Byte) }
    else if id == 0x25 { Some(PropKind::Byte) }
    else if id == 0x26 { Some(PropKind::Pair) }
    else if id == 0x27 { Some(PropKind::Four) }
    else if id == 0x28 { Some(PropKind::Byte) }
    else if id == 0x29 { Some(PropKind::Byte) }
    else if id == 0x2A { Some(PropKind::Byte) }
    else { None }
}

/// The value type of a property identifier, `None` for an unknown identifier.
pub fn kind_of_id(id: u8) -> (r: Option<PropKind>)
    ensures
        r == kind_of(id),
{
    match id {
        0x01 => Some(PropKind::Byte),
        0x02 => Some(PropKind::Four),
        0x03 => Some(PropKind::Str),
        0x08 => Some(PropKind::Str),
        0x09 => Some(PropKind::Bin),
        0x0B => Some(PropKind::Var),
        0x11 => Some(PropKind::Four),
        0x12 => Some(PropKind::Str),
        0x13 => Some(PropKind::Two),
        0x15 => Some(PropKind::Str),
        0x16 => Some(PropKind::Bin),
        0x17 => Some(PropKind::Byte),
        0x18 => Some(PropKind::Four),
        0x19 => Some(PropKind::Byte),
        0x1A => Some(PropKind::Str),
        0x1C => Some(PropKind::Str),
        0x1F => Some(PropKind::Str),
        0x21 => Some(PropKind::Two),
        0x22 => Some(PropKind::Two),
        0x23 => Some(PropKind::Two),
        0x24 => Some(PropKind::Byte),
        0x25 => Some(PropKind::Byte),
        0x26 => Some(PropKind::Pair),
        0x27 => Some(PropKind::Four),
        0x28 => Some(PropKind::Byte),
        0x29 => Some(PropKind::Byte),
        0x2A => Some(PropKind::Byte),
        _ => None,
    }
}

/// The property with identifier `id` and value `v`, or `None` when `v` is not
/// of the type the identifier takes.
pub fn make_property(id: u8, v: RawValue) -> (r: Option<Property>)
    ensures
        r is Some <==> kind_of(id) == Some(v@.kind()),
        r matches Some(p) ==> p@ == (PropertyV { id, value: v@ }),
{
    match (id, v) {
        (0x01, RawValue::Byte(a)) => Some(Property::PayloadFormatIndicator(a)),
        (0x02, RawValue::Four(a)) => Some(Property::MessageExpiryInterval(a)),
        (0x03, RawValue::Str(a)) => Some(Property::ContentType(a)),
        (0x08, RawValue::Str(a)) => Some(Property::ResponseTopic(a)),
        (0x09, RawValue::Bin(a)) => Some(Property::CorrelationData(a)),
        (0x0B, RawValue::Var(a)) => Some(Property::SubscriptionIdentifier(a)),
        (0x11, RawValue::Four(a)) => Some(Property::SessionExpiryInterval(a)),
        (0x12, RawValue::Str(a)) => Some(Property::AssignedClientIdentifier(a)),
        (0x13, RawValue::Two(a)) => Some(Property::ServerKeepAlive(a)),
        (0x15, RawValue::Str(a)) => Some(Property::AuthenticationMethod(a)),
        (0x16, RawValue::Bin(a)) => Some(Property::AuthenticationData(a)),
        (0x17, RawValue::Byte(a)) => Some(Property::RequestProblemInformation(a)),
        (0x18, RawValue::Four(a)) => Some(Property::WillDelayInterval(a)),
        (0x19, RawValue::Byte(a)) => Some(Property::RequestResponseInformation(a)),
        (0x1A, RawValue::Str(a)) => Some(Property::ResponseInformation(a)),
        (0x1C, RawValue::Str(a)) => Some(Property::ServerReference(a)),
        (0x1F, RawValue::Str(a)) => Some(Property::ReasonString(a)),
        (0x21, RawValue::Two(a)) => Some(Property::ReceiveMaximum(a)),
        (0x22, RawValue::Two(a)) => Some(Property::TopicAliasMaximum(a)),
        (0x23, RawValue::Two(a)) => Some(Property::TopicAlias(a)),
        (0x24, RawValue::Byte(a)) => Some(Property::MaximumQoS(a)),
        (0x25, RawValue::Byte(a)) => Some(Property::RetainAvailable(a)),
        (0x26, RawValue::Pair(a, b)) => Some(Property::UserProperty(a, b)),
        (0x27, RawValue::Four(a)) => Some(Property::MaximumPacketSize(a)),
        (0x28, RawValue::Byte(a)) => Some(Property::WildcardSubscriptionAvailable(a)),
        (0x29, RawValue::Byte(a)) => Some(Property::SubscriptionIdentifierAvailable(a)),
        (0x2A, RawValue::Byte(a)) => Some(Property::SharedSubscriptionAvailable(a)),
        _ => None,
    }
}

/// Appends the encoding of one property, or returns false (leaving `out`
/// unchanged) when a string or binary value is too long for its length prefix
/// or a Variable Byte Integer value exceeds its maximum.
pub fn put_property(out: &mut Vec<u8>, p: &Property) -> (ok: bool)
    ensures
        ok == value_ok(p@.value),
        ok ==> final(out)@ == old(out)@ + prop_bytes(p@),
        !ok ==> final(out)@ == old(out)@,
{
    let ghost start = out@;
    let ok = match p {
        Property::PayloadFormatIndicator(a) => put_byte_value(out, 0x01, *a),
        Property::MessageExpiryInterval(a) => put_four_value(out, 0x02, *a),
        Property::ContentType(a) => put_str_value(out, 0x03, a),
        Property::ResponseTopic(a) => put_str_value(out, 0x08, a),
        Property::CorrelationData(a) => put_bin_value(out, 0x09, a),
        Property::SubscriptionIdentifier(a) => put_var_value(out, 0x0B, *a),
        Property::SessionExpiryInterval(a) => put_four_value(out, 0x11, *a),
        Property::AssignedClientIdentifier(a) => put_str_value(out, 0x12, a),
        Property::ServerKeepAlive(a) => put_two_value(out, 0x13, *a),
        Property::AuthenticationMethod(a) => put_str_value(out, 0x15, a),
        Property::AuthenticationData(a) => put_bin_value(out, 0x16, a),
        Property::RequestProblemInformation(a) => put_byte_value(out, 0x17, *a),
        Property::WillDelayInterval(a) => put_four_value(out, 0x18, *a),
        Property::RequestResponseInformation(a) => put_byte_value(out, 0x19, *a),
        Property::ResponseInformation(a) => put_str_value(out, 0x1A, a),
        Property::ServerReference(a) => put_str_value(out, 0x1C, a),
        Property::ReasonString(a) => put_str_value(out, 0x1F, a),
        Property::ReceiveMaximum(a) => put_two_value(out, 0x21, *a),
        Property::TopicAliasMaximum(a) => put_two_value(out, 0x22, *a),
        Property::TopicAlias(a) => put_two_value(out, 0x23, *a),
        Property::MaximumQoS(a) => put_byte_value(out, 0x24, *a),
        Property::RetainAvailable(a) => put_byte_value(out, 0x25, *a),
        Property::UserProperty(a, b) => put_pair_value(out, 0x26, a, b),
        Property::MaximumPacketSize(a) => put_four_value(out, 0x27, *a),
        Property::WildcardSubscriptionAvailable(a) => put_byte_value(out, 0x28, *a),
        Property::SubscriptionIdentifierAvailable(a) => put_byte_value(out, 0x29, *a),
        Property::SharedSubscriptionAvailable(a) => put_byte_value(out, 0x2A, *a),
    };
    ok
}

/// A copy of a property with the same view.
pub fn copy_property(p: &Property) -> (r: Property)
    ensures
        r@ == p@,
{
    match p {
        Property::PayloadFormatIndicator(a) => Property::PayloadFormatIndicator(*a),
        Property::MessageExpiryInterval(a) => Property::MessageExpiryInterval(*a),
        Property::ContentType(a) => Property::ContentType(a.clone()),
        Property::ResponseTopic(a) => Property::ResponseTopic(a.clone()),
        Property::CorrelationData(a) => Property::CorrelationData(copy_bytes(a)),
        Property::SubscriptionIdentifier(a) => Property::SubscriptionIdentifier(*a),
        Property::SessionExpiryInterval(a) => Property::SessionExpiryInterval(*a),
        Property::AssignedClientIdentifier(a) => Property::AssignedClientIdentifier(a.clone()),
        Property::ServerKeepAlive(a) => Property::ServerKeepAlive(*a),
        Property::AuthenticationMethod(a) => Property::AuthenticationMethod(a.clone()),
        Property::AuthenticationData(a) => Property::AuthenticationData(copy_bytes(a)),
        Property::RequestProblemInformation(a) => Property::RequestProblemInformation(*a),
        Property::WillDelayInterval(a) => Property::WillDelayInterval(*a),
        Property::RequestResponseInformation(a) => Property::RequestResponseInformation(*a),
        Property::ResponseInformation(a) => Property::ResponseInformation(a.clone()),
        Property::ServerReference(a) => Property::ServerReference(a.clone()),
        Property::ReasonString(a) => Property::ReasonString(a.clone()),
        Property::ReceiveMaximum(a) => Property::ReceiveMaximum(*a),
        Property::TopicAliasMaximum(a) => Property::TopicAliasMaximum(*a),
        Property::TopicAlias(a) => Property::TopicAlias(*a),
        Property::MaximumQoS(a) => Property::MaximumQoS(*a),
        Property::RetainAvailable(a) => Property::RetainAvailable(*a),
        Property::UserProperty(a, b) => Property::UserProperty(a.clone(), b.clone()),
        Property::MaximumPacketSize(a) => Property::MaximumPacketSize(*a),
        Property::WildcardSubscriptionAvailable(a) => Property::WildcardSubscriptionAvailable(*a),
        Property::SubscriptionIdentifierAvailable(a) => Property::SubscriptionIdentifierAvailable(*a),
        Property::SharedSubscriptionAvailable(a) => Property::SharedSubscriptionAvailable(*a),
    }
}

/// A copy of a property list with the same views.
pub fn copy_properties(ps: &Vec<Property>) -> (r: Vec<Property>)
    ensures
        views(r@) == views(ps@),
{
    let mut r: Vec<Property> = Vec::new();
    let mut i: usize = 0;
    while i < ps.len()
        invariant
            i <= ps@.len(),
            r@.len() == i,
            forall|j: int| 0 <= j < i ==> #[trigger] r@[j]@ == ps@[j]@,
        decreases ps@.len() - i,
    {
        r.push(copy_property(&ps[i]));
        i += 1;
    }
    assert(views(r@) =~= views(ps@));
    r
}

/// Every property value has the type its identifier takes.
pub proof fn lemma_property_kind(p: Property)
    ensures
        kind_of(p@.id) == Some(p@.value.kind()),
{
}

fn put_byte_value(out: &mut Vec<u8>, id: u8, x: u8) -> (ok: bool)
    ensures
        ok,
        final(out)@ == old(out)@ + prop_bytes(PropertyV { id, value: PropValue::Byte(x) }),
{
    out.push(id);
    out.push(x);
    assert(out@ == old(out)@ + prop_bytes(PropertyV { id, value: PropValue::Byte(x) }));
    true
}

fn put_two_value(out: &mut Vec<u8>, id: u8, x: u16) -> (ok: bool)
    ensures
        ok,
        final(out)@ == old(out)@ + prop_bytes(PropertyV { id, value: PropValue::Two(x) }),
{
    out.push(id);
    put_u16(out, x);
    assert(out@ == old(out)@ + prop_bytes(PropertyV { id, value: PropValue::Two(x) }));
    true
}

fn put_four_value(out: &mut Vec<u8>, id: u8, x: u32) -> (ok: bool)
    ensures
        ok,
        final(out)@ == old(out)@ + prop_bytes(PropertyV { id, value: PropValue::Four(x) }),
{
    out.push(id);
    put_u32(out, x);
    assert(out@ == old(out)@ + prop_bytes(PropertyV { id, value: PropValue::Four(x) }));
    true
}

fn put_var_value(out: &mut Vec<u8>, id: u8, x: u32) -> (ok: bool)
    ensures
        ok == (x <= VBI_MAX),
        ok ==> final(out)@ == old(out)@ + prop_bytes(PropertyV { id, value: PropValue::Var(x) }),
        !ok ==> final(out)@ == old(out)@,
{
    if x > VBI_MAX {
        return false;
    }
    out.push(id);
    put_vbi(out, x);
    assert(out@ == old(out)@ + prop_bytes(PropertyV { id, value: PropValue::Var(x) }));
    true
}

fn put_str_value(out: &mut Vec<u8>, id: u8, s: &String) -> (ok: bool)
    ensures
        ok == str_ok(s@),
        ok ==> final(out)@ == old(out)@ + prop_bytes(PropertyV { id, value: PropValue::Str(s@) }),
        !ok ==> final(out)@ == old(out)@,
{
    if s.as_str().as_bytes().len() > 65535 {
        return false;
    }
    out.push(id);
    put_str(out, s);
    assert(out@ == old(out)@ + prop_bytes(PropertyV { id, value: PropValue::Str(s@) }));
    true
}

fn put_bin_value(out: &mut Vec<u8>, id: u8, b: &Vec<u8>) -> (ok: bool)
    ensures
        ok == bin_ok(b@),
        ok ==> final(out)@ == old(out)@ + prop_bytes(PropertyV { id, value: PropValue::Bin(b@) }),
        !ok ==> final(out)@ == old(out)@,
{
    if b.len() > 65535 {
        return false;
    }
    out.push(id);
    put_bin(out, b.as_slice());
    assert(out@ == old(out)@ + prop_bytes(PropertyV { id, value: PropValue::Bin(b@) }));
    true
}

fn put_pair_value(out: &mut Vec<u8>, id: u8, k: &String, w: &String) -> (ok: bool)
    ensures
        ok == (str_ok(k@) && str_ok(w@)),
        ok ==> final(out)@ == old(out)@ + prop_bytes(PropertyV { id, value: PropValue::Pair(k@, w@) }),
        !ok ==> final(out)@ == old(out)@,
{
    if k.as_str().as_bytes().len() > 65535 || w.as_str().as_bytes().len() > 65535 {
        return false;
    }
    out.push(id);
    put_str(out, k);
    put_str(out, w);
    assert(out@ == old(out)@ + prop_bytes(PropertyV { id, value: PropValue::Pair(k@, w@) }));
    true
}

/// Reads a property value of the given type.
pub fn get_value(buf: &[u8], pos: usize, end: usize, kind: PropKind) -> (r: Option<(RawValue, usize)>)
    requires
        pos <= end <= buf@.len(),
    ensures
        r matches Some((v, e)) ==> v@.kind() == kind && value_ok(v@) && e == pos + value_bytes(v@).len()
            && at(buf@, pos as int, end as int, value_bytes(v@)),
        forall|y: PropValue| y.kind() == kind && value_ok(y) && #[trigger] at(buf@, pos as int, end as int,
            value_bytes(y)) ==> (r matches Some((v, e)) && v@ == y && e == pos + value_bytes(y).len()),
{
    match kind {
        PropKind::Byte => {
            let r = get_u8(buf, pos, end);
            proof {
                assert forall|y: PropValue| y.kind() == kind && value_ok(y) && #[trigger] at(buf@, pos as int,
                    end as int, value_bytes(y)) implies (r matches Some((v, e)) && PropValue::Byte(v) == y) by {
                    assert(buf@.subrange(pos as int, pos + 1)[0] == value_bytes(y)[0]);
                }
            }
            match r {
                Some((x, e)) => Some((RawValue::Byte(x), e)),
                None => None,
            }
        },
        PropKind::Two => {
            let r = get_u16(buf, pos, end);
            proof {
                assert forall|y: PropValue| y.kind() == kind && value_ok(y) && #[trigger] at(buf@, pos as int,
                    end as int, value_bytes(y)) implies (r matches Some((v, e)) && PropValue::Two(v) == y) by {
                    if let PropValue::Two(z) = y {
                        assert(at(buf@, pos as int, end as int, be16(z)));
                    }
                }
            }
            match r {
                Some((x, e)) => Some((RawValue::Two(x), e)),
                None => None,
            }
        },
        PropKind::Four => {
            let r = get_u32(buf, pos, end);
            proof {
                assert forall|y: PropValue| y.kind() == kind && value_ok(y) && #[trigger] at(buf@, pos as int,
                    end as int, value_bytes(y)) implies (r matches Some((v, e)) && PropValue::Four(v) == y) by {
                    if let PropValue::Four(z) = y {
                        assert(at(buf@, pos as int, end as int, be32(z)));
                    }
                }
            }
            match r {
                Some((x, e)) => Some((RawValue::Four(x), e)),
                None => None,
            }
        },
        PropKind::Var => {
            let r = get_vbi(buf, pos, end);
            proof {
                assert forall|y: PropValue| y.kind() == kind && value_ok(y) && #[trigger] at(buf@, pos as int,
                    end as int, value_bytes(y)) implies (r matches VbiRead::Value(v, e) && PropValue::Var(v) == y
                    && e == pos + value_bytes(y).len()) by {
                    if let PropValue::Var(z) = y {
                        assert(at(buf@, pos as int, end as int, vbi(z)));
                    }
                }
            }
            match r {
                VbiRead::Value(x, e) => Some((RawValue::Var(x), e)),
                _ => None,
            }
        },
        PropKind::Str => {
            let r = get_str(buf, pos, end);
            proof {
                assert forall|y: PropValue| y.kind() == kind && value_ok(y) && #[trigger] at(buf@, pos as int,
                    end as int, value_bytes(y)) implies (r matches Some((v, e)) && PropValue::Str(v@) == y
                    && e == pos + value_bytes(y).len()) by {
                    if let PropValue::Str(z) = y {
                        assert(at(buf@, pos as int, end as int, str_field(z)));
                    }
                }
            }
            match r {
                Some((x, e)) => Some((RawValue::Str(x), e)),
                None => None,
            }
        },
        PropKind::Bin => {
            let r = get_bin(buf, pos, end);
            proof {
                assert forall|y: PropValue| y.kind() == kind && value_ok(y) && #[trigger] at(buf@, pos as int,
                    end as int, value_bytes(y)) implies (r matches Some((v, e)) && PropValue::Bin(v@) == y
                    && e == pos + value_bytes(y).len()) by {
                    if let PropValue::Bin(z) = y {
                        assert(at(buf@, pos as int, end as int, bin_field(z)));
                    }
                }
            }
            match r {
                Some((x, e)) => Some((RawValue::Bin(x), e)),
                None => None,
            }
        },
        PropKind::Pair => {
            let r1 = get_str(buf, pos, end);
            match r1 {
                Some((k, p)) => {
                    let r2 = get_str(buf, p, end);
                    proof {
                        assert forall|y: PropValue| y.kind() == kind && value_ok(y) && #[trigger] at(buf@,
                            pos as int, end as int, value_bytes(y)) implies (r2 matches Some((w, e))
                            && PropValue::Pair(k@, w@) == y && e == pos + value_bytes(y).len()) by {
                            if let PropValue::Pair(a, b) = y {
                                lemma_at_split(buf@, pos as int, end as int, str_field(a), str_field(b));
                            }
                        }
                    }
                    match r2 {
                        Some((w, e)) => {
                            assert(buf@.subrange(pos as int, e as int) == buf@.subrange(pos as int, p as int)
                                + buf@.subrange(p as int, e as int));
                            Some((RawValue::Pair(k, w), e))
                        },
                        None => None,
                    }
                },
                None => {
                    proof {
                        assert forall|y: PropValue| y.kind() == kind && value_ok(y) && #[trigger] at(buf@,
                            pos as int, end as int, value_bytes(y)) implies false by {
                            if let PropValue::Pair(a, b) = y {
                                lemma_at_split(buf@, pos as int, end as int, str_field(a), str_field(b));
                            }
                        }
                    }
                    None
                },
            }
        },
    }
}

/// Reads one property: identifier byte, then a value of the identifier's type.
pub fn get_property(buf: &[u8], pos: usize, end: usize) -> (r: Option<(Property, usize)>)
    requires
        pos <= end <= buf@.len(),
    ensures
        r matches Some((p, e)) ==> prop_valid(p@) && e == pos + prop_bytes(p@).len() && at(buf@,
            pos as int, end as int, prop_bytes(p@)),
        forall|y: PropertyV| prop_valid(y) && #[trigger] at(buf@, pos as int, end as int, prop_bytes(y))
            ==> (r matches Some((p, e)) && p@ == y && e == pos + prop_bytes(y).len()),
{
    let (id, p) = match get_u8(buf, pos, end) {
        Some(v) => v,
        None => return None,
    };
    proof {
        assert forall|y: PropertyV| prop_valid(y) && #[trigger] at(buf@, pos as int, end as int,
            prop_bytes(y)) implies y.id == id && at(buf@, p as int, end as int, value_bytes(y.value)) by {
            lemma_at_split(buf@, pos as int, end as int, seq![y.id], value_bytes(y.value));
            assert(buf@.subrange(pos as int, pos + 1)[0] == y.id);
        }
    }
    let kind = match kind_of_id(id) {
        Some(k) => k,
        None => return None,
    };
    let (v, e) = match get_value(buf, p, end, kind) {
        Some(x) => x,
        None => return None,
    };
    let ghost vv = v@;
    proof {
        assert(buf@.subrange(pos as int, e as int) == buf@.subrange(pos as int, p as int)
            + buf@.subrange(p as int, e as int));
    }
    match make_property(id, v) {
        Some(prop) => {
            proof {
                assert(prop_bytes(prop@) == seq![id] + value_bytes(vv));
            }
            Some((prop, e))
        },
        None => None,
    }
}

/// The views of a list of properties.
pub open spec fn views(ps: Seq<Property>) -> Seq<PropertyV> {
    ps.map_values(|p: Property| p@)
}

/// The concatenated encodings of a list of properties.
pub open spec fn props_bytes(ps: Seq<PropertyV>) -> Seq<u8>
    decreases ps.len(),
{
    if ps.len() == 0 {
        seq![]
    } else {
        props_bytes(ps.drop_last()) + prop_bytes(ps.last())
    }
}

/// Whether a property list can be encoded.
pub open spec fn props_ok(ps: Seq<PropertyV>) -> bool {
    &&& forall|i: int| 0 <= i < ps.len() ==> #[trigger] prop_valid(ps[i])
    &&& props_bytes(ps).len() <= VBI_MAX
}

/// The length-prefixed encoding of a property list.
pub open spec fn props_field(ps: Seq<PropertyV>) -> Seq<u8> {
    vbi(props_bytes(ps).len() as u32) + props_bytes(ps)
}

/// The encoding of a prefix of a list is a prefix of the list's encoding.
pub proof fn lemma_props_prefix(ys: Seq<PropertyV>, k: int)
    requires
        0 <= k <= ys.len(),
    ensures
        props_bytes(ys.take(k)).len() <= props_bytes(ys).len(),
        props_bytes(ys).subrange(0, props_bytes(ys.take(k)).len() as int) == props_bytes(ys.take(k)),
    decreases ys.len() - k,
{
    if k < ys.len() {
        lemma_props_prefix(ys, k + 1);
        assert(ys.take(k + 1).drop_last() == ys.take(k));
        let a = props_bytes(ys.take(k));
        let b = props_bytes(ys.take(k + 1));
        assert(b == a + prop_bytes(ys[k]));
        assert(props_bytes(ys).subrange(0, a.len() as int) == b.subrange(0, a.len() as int));
    } else {
        assert(ys.take(k) == ys);
    }
}

/// Appends the length-prefixed encoding of a property list, or returns false
/// (leaving `out` unchanged) when some property or the list cannot be encoded.
pub fn put_properties(out: &mut Vec<u8>, ps: &Vec<Property>) -> (ok: bool)
    ensures
        ok == props_ok(views(ps@)),
        ok ==> final(out)@ == old(out)@ + props_field(views(ps@)),
        !ok ==> final(out)@ == old(out)@,
{
    let mut body: Vec<u8> = Vec::new();
    let mut i: usize = 0;
    while i < ps.len()
        invariant
            i <= ps@.len(),
            body@ == props_bytes(views(ps@).take(i as int)),
            forall|j: int| 0 <= j < i ==> #[trigger] prop_valid(views(ps@)[j]),
        decreases ps@.len() - i,
    {
        proof {
            lemma_property_kind(ps@[i as int]);
        }
        if !put_property(&mut body, &ps[i]) {
            assert(views(ps@)[i as int] == ps@[i as int]@);
            assert(!prop_valid(views(ps@)[i as int]));
            return false;
        }
        proof {
            assert(views(ps@).take(i + 1).drop_last() == views(ps@).take(i as int));
        }
        i += 1;
    }
    assert(views(ps@).take(i as int) == views(ps@));
    if body.len() > 268_435_455 {
        return false;
    }
    put_vbi(out, body.len() as u32);
    put_bytes(out, body.as_slice());
    true
}

/// Reads a length-prefixed property list.
pub fn get_properties(buf: &[u8], pos: usize, end: usize) -> (r: Option<(Vec<Property>, usize)>)
    requires
        pos <= end <= buf@.len(),
    ensures
        r matches Some((ps, e)) ==> props_ok(views(ps@)) && e == pos + props_field(views(ps@)).len()
            && at(buf@, pos as int, end as int, props_field(views(ps@))),
        forall|ys: Seq<PropertyV>| props_ok(ys) && #[trigger] at(buf@, pos as int, end as int, props_field(ys))
            ==> (r matches Some((ps, e)) && views(ps@) == ys && e == pos + props_field(ys).len()),
{
    let (len, start) = match get_vbi(buf, pos, end) {
        VbiRead::Value(x, e) => (x, e),
        _ => {
            proof {
                assert forall|ys: Seq<PropertyV>| props_ok(ys) && #[trigger] at(buf@, pos as int, end as int,
                    props_field(ys)) implies false by {
                    let l = props_bytes(ys).len() as u32;
                    lemma_at_split(buf@, pos as int, end as int, vbi(l), props_bytes(ys));
                }
            }
            return None;
        },
    };
    proof {
        assert forall|ys: Seq<PropertyV>| props_ok(ys) && #[trigger] at(buf@, pos as int, end as int,
            props_field(ys)) implies len == props_bytes(ys).len() && start == pos + vbi(len).len()
            && at(buf@, start as int, end as int, props_bytes(ys)) by {
            let l = props_bytes(ys).len() as u32;
            lemma_at_split(buf@, pos as int, end as int, vbi(l), props_bytes(ys));
        }
    }
    if len as usize > end - start {
        return None;
    }
    let limit = start + len as usize;
    let mut ps: Vec<Property> = Vec::new();
    let mut cur = start;
    while cur < limit
        invariant
            start <= cur <= limit <= end <= buf@.len(),
            limit == start + len,
            len <= VBI_MAX,
            buf@.subrange(start as int, cur as int) == props_bytes(views(ps@)),
            forall|j: int| 0 <= j < ps@.len() ==> #[trigger] prop_valid(views(ps@)[j]),
            forall|ys: Seq<PropertyV>| props_ok(ys) && #[trigger] at(buf@, pos as int, end as int,
                props_field(ys)) ==> {
                &&& len == props_bytes(ys).len()
                &&& at(buf@, start as int, end as int, props_bytes(ys))
                &&& ps@.len() <= ys.len()
                &&& views(ps@) == ys.take(ps@.len() as int)
                &&& cur == start + props_bytes(ys.take(ps@.len() as int)).len()
            },
        decreases limit - cur,
    {
        let ghost k = ps@.len() as int;
        proof {
            assert forall|ys: Seq<PropertyV>| props_ok(ys) && #[trigger] at(buf@, pos as int, end as int,
                props_field(ys)) implies k < ys.len() && at(buf@, cur as int, limit as int, prop_bytes(ys[k])) && prop_valid(ys[k]) by {
                if k == ys.len() {
                    assert(ys.take(k) == ys);
                }
                lemma_props_prefix(ys, k + 1);
                assert(ys.take(k + 1).drop_last() == ys.take(k));
                let a = props_bytes(ys.take(k));
                let b = props_bytes(ys.take(k + 1));
                assert(b == a + prop_bytes(ys[k]));
                let rest = props_bytes(ys).subrange(b.len() as int, props_bytes(ys).len() as int);
                assert(props_bytes(ys) == b + rest);
                lemma_at_split(buf@, start as int, end as int, b, rest);
                lemma_at_split(buf@, start as int, end as int, a, prop_bytes(ys[k]));
                lemma_at_bound(buf@, cur as int, end as int, prop_bytes(ys[k]), limit as int);
                assert(prop_valid(ys[k]));
            }
        }
        let (q, e) = match get_property(buf, cur, limit) {
            Some(x) => x,
            None => return None,
        };
        proof {
            assert(buf@.subrange(start as int, e as int) == buf@.subrange(start as int, cur as int)
                + buf@.subrange(cur as int, e as int));
            assert(views(ps@.push(q)) == views(ps@).push(q@));
            assert(views(ps@.push(q)).drop_last() == views(ps@));
            assert forall|ys: Seq<PropertyV>| props_ok(ys) && #[trigger] at(buf@, pos as int, end as int,
                props_field(ys)) implies views(ps@.push(q)) == ys.take(k + 1) && e == start + props_bytes(ys.take(k + 1)).len() by {
                assert(ys.take(k + 1) == ys.take(k).push(ys[k]));
                assert(ys.take(k + 1).drop_last() == ys.take(k));
            }
        }
        ps.push(q);
        cur = e;
    }
    proof {
        assert forall|ys: Seq<PropertyV>| props_ok(ys) && #[trigger] at(buf@, pos as int, end as int,
            props_field(ys)) implies views(ps@) == ys by {
            let k = ps@.len() as int;
            if k < ys.len() {
                lemma_props_prefix(ys, k + 1);
                assert(ys.take(k + 1).drop_last() == ys.take(k));
            }
            assert(ys.take(k) == ys);
        }
        assert(buf@.subrange(pos as int, limit as int) == buf@.subrange(pos as int, start as int)
            + buf@.subrange(start as int, limit as int));
    }
    Some((ps, limit))
}

/// Each property goes on the wire under the identifier MQTT 5 gives its
/// kind, with its value in the form the table gives that identifier.
pub proof fn law_property_identifiers(p: Property)
    ensures
        p matches Property::PayloadFormatIndicator(v) ==> p@ == (PropertyV { id: 0x01, value: PropValue::Byte(v) }),
        p matches Property::MessageExpiryInterval(v) ==> p@ == (PropertyV { id: 0x02, value: PropValue::Four(v) }),
        p matches Property::ContentType(v) ==> p@ == (PropertyV { id: 0x03, value: PropValue::Str(v@) }),
        p matches Property::ResponseTopic(v) ==> p@ == (PropertyV { id: 0x08, value: PropValue::Str(v@) }),
        p matches Property::CorrelationData(v) ==> p@ == (PropertyV { id: 0x09, value: PropValue::Bin(v@) }),
        p matches Property::SubscriptionIdentifier(v) ==> p@ == (PropertyV { id: 0x0B, value: PropValue::Var(v) }),
        p matches Property::SessionExpiryInterval(v) ==> p@ == (PropertyV { id: 0x11, value: PropValue::Four(v) }),
        p matches Property::AssignedClientIdentifier(v) ==> p@ == (PropertyV { id: 0x12, value: PropValue::Str(v@) }),
        p matches Property::ServerKeepAlive(v) ==> p@ == (PropertyV { id: 0x13, value: PropValue::Two(v) }),
        p matches Property::AuthenticationMethod(v) ==> p@ == (PropertyV { id: 0x15, value: PropValue::Str(v@) }),
        p matches Property::AuthenticationData(v) ==> p@ == (PropertyV { id: 0x16, value: PropValue::Bin(v@) }),
        p matches Property::RequestProblemInformation(v) ==> p@ == (PropertyV { id: 0x17, value: PropValue::Byte(v) }),
        p matches Property::WillDelayInterval(v) ==> p@ == (PropertyV { id: 0x18, value: PropValue::Four(v) }),
        p matches Property::RequestResponseInformation(v) ==> p@ == (PropertyV { id: 0x19, value: PropValue::Byte(v) }),
        p matches Property::ResponseInformation(v) ==> p@ == (PropertyV { id: 0x1A, value: PropValue::Str(v@) }),
        p matches Property::ServerReference(v) ==> p@ == (PropertyV { id: 0x1C, value: PropValue::Str(v@) }),
        p matches Property::ReasonString(v) ==> p@ == (PropertyV { id: 0x1F, value: PropValue::Str(v@) }),
        p matches Property::ReceiveMaximum(v) ==> p@ == (PropertyV { id: 0x21, value: PropValue::Two(v) }),
        p matches Property::TopicAliasMaximum(v) ==> p@ == (PropertyV { id: 0x22, value: PropValue::Two(v) }),
        p matches Property::TopicAlias(v) ==> p@ == (PropertyV { id: 0x23, value: PropValue::Two(v) }),
        p matches Property::MaximumQoS(v) ==> p@ == (PropertyV { id: 0x24, value: PropValue::Byte(v) }),
        p matches Property::RetainAvailable(v) ==> p@ == (PropertyV { id: 0x25, value: PropValue::Byte(v) }),
        p matches Property::UserProperty(v, w) ==> p@ == (PropertyV { id: 0x26, value: PropValue::Pair(v@, w@) }),
        p matches Property::MaximumPacketSize(v) ==> p@ == (PropertyV { id: 0x27, value: PropValue::Four(v) }),
        p matches Property::WildcardSubscriptionAvailable(v) ==> p@ == (PropertyV { id: 0x28, value: PropValue::Byte(v) }),
        p matches Property::SubscriptionIdentifierAvailable(v) ==> p@ == (PropertyV { id: 0x29, value: PropValue::Byte(v) }),
        p matches Property::SharedSubscriptionAvailable(v) ==> p@ == (PropertyV { id: 0x2A, value: PropValue::Byte(v) }),
{
}

} // verus!
