//! What the gRPC relay does with each packet a client sends it: which call
//! of the relay service carries it, and what goes back to the client; and
//! which call carries each packet the broker sends back.

use vstd::prelude::*;
use crate::codec::packet::{MqttPacket, PacketV};

verus! {

/// The calls of the relay service.
#[derive(Debug, Clone, Copy, PartialEq, Eq, Structural)]
pub enum RelayCall {
    Publish,
    PubAck,
    PubRec,
    PubRel,
    PubComp,
    Subscribe,
    SubAck,
    Unsubscribe,
    UnsubAck,
    PingReq,
    Disconnect,
    Auth,
}

/// What is written back to the client after the call.
#[derive(Debug, Clone, Copy, PartialEq, Eq, Structural)]
pub enum RelayReply {
    /// Nothing.
    Nothing,
    /// The packet the call answers with, when the call succeeds.
    Answer,
    /// A PINGRESP, whether or not the call succeeds.
    PingResp,
}

/// The relay's step for one client packet.
#[derive(Debug, Clone, Copy, PartialEq, Eq, Structural)]
pub enum RelayStep {
    /// The packet is not one a client sends: it is dropped.
    Ignore,
    /// The packet goes to the service; the connection is closed afterwards
    /// when `close` is set.
    Forward { call: RelayCall, reply: RelayReply, close: bool },
}

/// The relay's step for a client packet.
pub open spec fn step_for(p: PacketV) -> RelayStep {
    match p {
        PacketV::Connect(_) | PacketV::ConnAck(_) | PacketV::PingResp => RelayStep::Ignore,
        PacketV::Publish(_) => RelayStep::Forward { call: RelayCall::Publish, reply: RelayReply::Nothing, close: false },
        PacketV::PubAck(_) => RelayStep::Forward { call: RelayCall::PubAck, reply: RelayReply::Nothing, close: false },
        PacketV::PubRec(_) => RelayStep::Forward { call: RelayCall::PubRec, reply: RelayReply::Answer, close: false },
        PacketV::PubRel(_) => RelayStep::Forward { call: RelayCall::PubRel, reply: RelayReply::Answer, close: false },
        PacketV::PubComp(_) => RelayStep::Forward { call: RelayCall::PubComp, reply: RelayReply::Nothing, close: false },
        PacketV::Subscribe(_) => RelayStep::Forward { call: RelayCall::Subscribe, reply: RelayReply::Answer, close: false },
        PacketV::SubAck(_) => RelayStep::Forward { call: RelayCall::SubAck, reply: RelayReply::Nothing, close: false },
        PacketV::Unsubscribe(_) => RelayStep::Forward {
            call: RelayCall::Unsubscribe,
            reply: RelayReply::Answer,
            close: false,
        },
        PacketV::UnsubAck(_) => RelayStep::Forward { call: RelayCall::UnsubAck, reply: RelayReply::Nothing, close: false },
        PacketV::PingReq => RelayStep::Forward { call: RelayCall::PingReq, reply: RelayReply::PingResp, close: false },
        PacketV::Disconnect(_) => RelayStep::Forward { call: RelayCall::Disconnect, reply: RelayReply::Nothing, close: true },
        PacketV::Auth(_) => RelayStep::Forward { call: RelayCall::Auth, reply: RelayReply::Answer, close: false },
    }
}

/// The relay's step for a packet read from a client connection.
pub fn relay_step(p: &MqttPacket) -> (r: RelayStep)
    ensures
        r == step_for(p@),
{
    match p {
        MqttPacket::Connect(_) | MqttPacket::ConnAck(_) | MqttPacket::PingResp => RelayStep::Ignore,
        MqttPacket::Publish(_) => RelayStep::Forward { call: RelayCall::Publish, reply: RelayReply::Nothing, close: false },
        MqttPacket::PubAck(_) => RelayStep::Forward { call: RelayCall::PubAck, reply: RelayReply::Nothing, close: false },
        MqttPacket::PubRec(_) => RelayStep::Forward { call: RelayCall::PubRec, reply: RelayReply::Answer, close: false },
        MqttPacket::PubRel(_) => RelayStep::Forward { call: RelayCall::PubRel, reply: RelayReply::Answer, close: false },
        MqttPacket::PubComp(_) => RelayStep::Forward { call: RelayCall::PubComp, reply: RelayReply::Nothing, close: false },
        MqttPacket::Subscribe(_) => RelayStep::Forward {
            call: RelayCall::Subscribe,
            reply: RelayReply::Answer,
            close: false,
        },
        MqttPacket::SubAck(_) => RelayStep::Forward { call: RelayCall::SubAck, reply: RelayReply::Nothing, close: false },
        MqttPacket::Unsubscribe(_) => RelayStep::Forward {
            call: RelayCall::Unsubscribe,
            reply: RelayReply::Answer,
            close: false,
        },
        MqttPacket::UnsubAck(_) => RelayStep::Forward {
            call: RelayCall::UnsubAck,
            reply: RelayReply::Nothing,
            close: false,
        },
        MqttPacket::PingReq => RelayStep::Forward { call: RelayCall::PingReq, reply: RelayReply::PingResp, close: false },
        MqttPacket::Disconnect(_) => RelayStep::Forward {
            call: RelayCall::Disconnect,
            reply: RelayReply::Nothing,
            close: true,
        },
        MqttPacket::Auth(_) => RelayStep::Forward { call: RelayCall::Auth, reply: RelayReply::Answer, close: false },
    }
}

/// Only DISCONNECT ends a relayed connection, and a client's PINGREQ is
/// always answered.
pub proof fn law_relay_close_and_ping(p: PacketV)
    ensures
        (step_for(p) matches RelayStep::Forward { close, .. } && close) <==> p is Disconnect,
        p is PingReq ==> step_for(p) matches RelayStep::Forward { reply: RelayReply::PingResp, .. },
{
}

/// The call that carries a packet read from the broker back towards the
/// client, or `None` for a packet that is not relayed: CONNACK, which only
/// confirms the broker connection, and packets a broker does not send.
/// A PINGRESP travels as a PINGREQ call.
pub open spec fn broker_call_for(p: PacketV) -> Option<RelayCall> {
    match p {
        PacketV::Publish(_) => Some(RelayCall::Publish),
        PacketV::PubAck(_) => Some(RelayCall::PubAck),
        PacketV::PubRec(_) => Some(RelayCall::PubRec),
        PacketV::PubRel(_) => Some(RelayCall::PubRel),
        PacketV::PubComp(_) => Some(RelayCall::PubComp),
        PacketV::SubAck(_) => Some(RelayCall::SubAck),
        PacketV::UnsubAck(_) => Some(RelayCall::UnsubAck),
        PacketV::PingResp => Some(RelayCall::PingReq),
        PacketV::Disconnect(_) => Some(RelayCall::Disconnect),
        PacketV::Auth(_) => Some(RelayCall::Auth),
        PacketV::Connect(_) | PacketV::ConnAck(_) | PacketV::Subscribe(_) | PacketV::Unsubscribe(_)
        | PacketV::PingReq => None,
    }
}

/// The call that carries a packet read from the broker.
pub fn broker_call(p: &MqttPacket) -> (r: Option<RelayCall>)
    ensures
        r == broker_call_for(p@),
{
    match p {
        MqttPacket::Publish(_) => Some(RelayCall::Publish),
        MqttPacket::PubAck(_) => Some(RelayCall::PubAck),
        MqttPacket::PubRec(_) => Some(RelayCall::PubRec),
        MqttPacket::PubRel(_) => Some(RelayCall::PubRel),
        MqttPacket::PubComp(_) => Some(RelayCall::PubComp),
        MqttPacket::SubAck(_) => Some(RelayCall::SubAck),
        MqttPacket::UnsubAck(_) => Some(RelayCall::UnsubAck),
        MqttPacket::PingResp => Some(RelayCall::PingReq),
        MqttPacket::Disconnect(_) => Some(RelayCall::Disconnect),
        MqttPacket::Auth(_) => Some(RelayCall::Auth),
        MqttPacket::Connect(_) | MqttPacket::ConnAck(_) | MqttPacket::Subscribe(_) | MqttPacket::Unsubscribe(_)
        | MqttPacket::PingReq => None,
    }
}

/// A packet that both ends may send (PUBLISH, the acknowledgements,
/// DISCONNECT and AUTH) travels over the same call whichever end sent it.
pub proof fn law_relay_directions_agree(p: PacketV)
    requires
        !(p is Connect || p is ConnAck || p is Subscribe || p is Unsubscribe || p is PingReq || p is PingResp),
    ensures
        step_for(p) matches RelayStep::Forward { call, .. } && broker_call_for(p) == Some(call),
{
}

/// A client request that the broker answers with a packet (SUBSCRIBE,
/// UNSUBSCRIBE, PUBREC, PUBREL, AUTH) has that answer written back to the
/// client; every other forwarded packet gets no answer, but a PINGREQ gets
/// its PINGRESP.
pub proof fn law_relay_answers_requests(p: PacketV)
    ensures
        (p is Subscribe || p is Unsubscribe || p is PubRec || p is PubRel || p is Auth) <==> (step_for(
            p,
        ) matches RelayStep::Forward { reply: RelayReply::Answer, .. }),
        (p is Publish || p is PubAck || p is PubComp || p is SubAck || p is UnsubAck || p is Disconnect) ==> (step_for(
            p,
        ) matches RelayStep::Forward { reply: RelayReply::Nothing, .. }),
        (step_for(p) is Ignore) <==> (p is Connect || p is ConnAck || p is PingResp),
{
}

/// Each packet a client sends travels over the call of its own kind.
pub proof fn law_relay_call_of_own_kind(p: PacketV)
    ensures
        p is Publish ==> (step_for(p) matches RelayStep::Forward { call: RelayCall::Publish, .. }),
        p is PubAck ==> (step_for(p) matches RelayStep::Forward { call: RelayCall::PubAck, .. }),
        p is PubRec ==> (step_for(p) matches RelayStep::Forward { call: RelayCall::PubRec, .. }),
        p is PubRel ==> (step_for(p) matches RelayStep::Forward { call: RelayCall::PubRel, .. }),
        p is PubComp ==> (step_for(p) matches RelayStep::Forward { call: RelayCall::PubComp, .. }),
        p is Subscribe ==> (step_for(p) matches RelayStep::Forward { call: RelayCall::Subscribe, .. }),
        p is SubAck ==> (step_for(p) matches RelayStep::Forward { call: RelayCall::SubAck, .. }),
        p is Unsubscribe ==> (step_for(p) matches RelayStep::Forward { call: RelayCall::Unsubscribe, .. }),
        p is UnsubAck ==> (step_for(p) matches RelayStep::Forward { call: RelayCall::UnsubAck, .. }),
        p is PingReq ==> (step_for(p) matches RelayStep::Forward { call: RelayCall::PingReq, .. }),
        p is Disconnect ==> (step_for(p) matches RelayStep::Forward { call: RelayCall::Disconnect, .. }),
        p is Auth ==> (step_for(p) matches RelayStep::Forward { call: RelayCall::Auth, .. }),
{
}

/// Each packet the broker sends back travels over the call of its own kind,
/// a PINGRESP over the PINGREQ call; CONNACK, and packets only a client
/// sends, are not relayed.
pub proof fn law_broker_call_of_own_kind(p: PacketV)
    ensures
        p is Publish ==> broker_call_for(p) == Some(RelayCall::Publish),
        p is PubAck ==> broker_call_for(p) == Some(RelayCall::PubAck),
        p is PubRec ==> broker_call_for(p) == Some(RelayCall::PubRec),
        p is PubRel ==> broker_call_for(p) == Some(RelayCall::PubRel),
        p is PubComp ==> broker_call_for(p) == Some(RelayCall::PubComp),
        p is SubAck ==> broker_call_for(p) == Some(RelayCall::SubAck),
        p is UnsubAck ==> broker_call_for(p) == Some(RelayCall::UnsubAck),
        p is PingResp ==> broker_call_for(p) == Some(RelayCall::PingReq),
        p is Disconnect ==> broker_call_for(p) == Some(RelayCall::Disconnect),
        p is Auth ==> broker_call_for(p) == Some(RelayCall::Auth),
        (broker_call_for(p) is None) <==> (p is Connect || p is ConnAck || p is Subscribe || p is Unsubscribe
            || p is PingReq),
{
}

} // verus!
