//! What one message of the gRPC relay stream carries, how an MQTT packet
//! becomes such a message, and how a message becomes MQTT bytes again.

use vstd::prelude::*;
use crate::codec::packet::{copy_packet, encode_packet, packet_bytes, packet_ok, MqttPacket, PacketV};

verus! {

/// An MQTT packet together with the protocol it belongs to.
#[derive(Debug, Clone, PartialEq)]
pub enum VersionedPacket {
    /// An MQTT 3.1.1 packet.
    V3(MqttPacket),
    /// An MQTT 5 packet.
    V5(MqttPacket),
}

/// The content of a stream message: an MQTT packet, or a session-control
/// message that only the relay understands.
#[derive(Debug, Clone, PartialEq)]
pub enum StreamContent {
    Packet(MqttPacket),
    SessionControl,
}

/// A stream message of the MQTT 3.1.1 stream or of the MQTT 5 stream.
#[derive(Debug, Clone, PartialEq)]
pub enum MqttStreamPayload {
    V3(StreamContent),
    V5(StreamContent),
}

/// The protocol level that MQTT 3.1.1 writes in CONNECT.
pub const V3_PROTOCOL_LEVEL: u8 = 4;

/// The encoding of a packet view at a protocol level, when it has one.
pub open spec fn encoding(p: PacketV, version: u8) -> Option<Seq<u8>> {
    if packet_ok(p, version) {
        Some(packet_bytes(p, version))
    } else {
        None
    }
}

/// The MQTT bytes of a stream content at a protocol level: the packet's
/// encoding, if it has one; none for session control.
pub open spec fn content_bytes(c: StreamContent, version: u8) -> Option<Seq<u8>> {
    match c {
        StreamContent::Packet(q) => encoding(q@, version),
        StreamContent::SessionControl => None,
    }
}

/// The MQTT bytes of a stream message, in the version of its stream.
pub open spec fn payload_bytes(p: MqttStreamPayload) -> Option<Seq<u8>> {
    match p {
        MqttStreamPayload::V3(c) => content_bytes(c, V3_PROTOCOL_LEVEL),
        MqttStreamPayload::V5(c) => content_bytes(c, 5),
    }
}

/// The MQTT bytes of a packet in its own protocol.
pub open spec fn versioned_bytes(p: VersionedPacket) -> Option<Seq<u8>> {
    match p {
        VersionedPacket::V3(q) => encoding(q@, V3_PROTOCOL_LEVEL),
        VersionedPacket::V5(q) => encoding(q@, 5),
    }
}

/// `r` is the encoding `e`, as an executable value.
pub open spec fn bytes_match(r: Option<Vec<u8>>, e: Option<Seq<u8>>) -> bool {
    match r {
        Some(b) => e == Some(b@),
        None => e is None,
    }
}

fn encode_content(c: &StreamContent, version: u8) -> (r: Option<Vec<u8>>)
    ensures
        bytes_match(r, content_bytes(*c, version)),
{
    match c {
        StreamContent::Packet(q) => encode_packet(q, version),
        StreamContent::SessionControl => None,
    }
}

/// The MQTT 5 bytes of a message of the MQTT 5 stream: none for session
/// control, and none for a packet that has no MQTT 5 encoding.
pub fn convert_stream_payload_to_mqtt_bytes(payload: &StreamContent) -> (r: Option<Vec<u8>>)
    ensures
        bytes_match(r, content_bytes(*payload, 5)),
{
    encode_content(payload, 5)
}

/// The MQTT 3.1.1 bytes of a message of the MQTT 3.1.1 stream: none for
/// session control, and none for a packet that has no MQTT 3.1.1 encoding.
pub fn convert_v3_stream_payload_to_mqtt_bytes(payload: &StreamContent) -> (r: Option<Vec<u8>>)
    ensures
        bytes_match(r, content_bytes(*payload, V3_PROTOCOL_LEVEL)),
{
    encode_content(payload, V3_PROTOCOL_LEVEL)
}

impl MqttStreamPayload {
    /// Whether the message belongs to the MQTT 3.1.1 stream.
    pub fn is_v3(&self) -> (r: bool)
        ensures
            r == (self is V3),
    {
        match self {
            MqttStreamPayload::V3(_) => true,
            MqttStreamPayload::V5(_) => false,
        }
    }

    /// Whether the message belongs to the MQTT 5 stream.
    pub fn is_v5(&self) -> (r: bool)
        ensures
            r == (self is V5),
    {
        match self {
            MqttStreamPayload::V3(_) => false,
            MqttStreamPayload::V5(_) => true,
        }
    }

    /// The MQTT bytes of the message, in the version of its stream.
    pub fn to_bytes(&self) -> (r: Option<Vec<u8>>)
        ensures
            bytes_match(r, payload_bytes(*self)),
    {
        match self {
            MqttStreamPayload::V3(c) => convert_v3_stream_payload_to_mqtt_bytes(c),
            MqttStreamPayload::V5(c) => convert_stream_payload_to_mqtt_bytes(c),
        }
    }
}

/// The MQTT bytes of a stream message, in the version of its stream.
pub fn convert_stream_payload_to_bytes(payload: &MqttStreamPayload) -> (r: Option<Vec<u8>>)
    ensures
        bytes_match(r, payload_bytes(*payload)),
{
    payload.to_bytes()
}

/// The protocol of a packet: 3 for MQTT 3.1.1, 5 for MQTT 5.
pub fn detect_mqtt_version(packet: &VersionedPacket) -> (r: u8)
    ensures
        r == (if packet is V3 { 3u8 } else { 5u8 }),
{
    match packet {
        VersionedPacket::V3(_) => 3,
        VersionedPacket::V5(_) => 5,
    }
}

/// The content of an MQTT 5 stream message for an MQTT 5 packet; none for
/// an MQTT 3.1.1 packet.
pub fn convert_mqtt_v5_to_stream_payload(packet: &VersionedPacket) -> (r: Option<StreamContent>)
    ensures
        match packet {
            VersionedPacket::V5(p) => r matches Some(StreamContent::Packet(q)) && q@ == p@,
            VersionedPacket::V3(_) => r is None,
        },
{
    match packet {
        VersionedPacket::V5(p) => Some(StreamContent::Packet(copy_packet(p))),
        VersionedPacket::V3(_) => None,
    }
}

/// The content of an MQTT 3.1.1 stream message for an MQTT 3.1.1 packet;
/// none for an MQTT 5 packet, and none for AUTH, which MQTT 3.1.1 lacks.
pub fn convert_mqtt_v3_to_stream_payload(packet: &VersionedPacket) -> (r: Option<StreamContent>)
    ensures
        match packet {
            VersionedPacket::V3(p) => if p is Auth {
                r is None
            } else {
                r matches Some(StreamContent::Packet(q)) && q@ == p@
            },
            VersionedPacket::V5(_) => r is None,
        },
{
    match packet {
        VersionedPacket::V3(MqttPacket::Auth(_)) => None,
        VersionedPacket::V3(p) => Some(StreamContent::Packet(copy_packet(p))),
        VersionedPacket::V5(_) => None,
    }
}

/// The stream message for a packet, on the stream of its protocol. Its
/// MQTT bytes are those of the packet in that protocol.
pub fn convert_mqtt_to_stream_payload(packet: &VersionedPacket) -> (r: Option<MqttStreamPayload>)
    ensures
        match packet {
            VersionedPacket::V5(p) => r matches Some(MqttStreamPayload::V5(StreamContent::Packet(q)))
                && q@ == p@,
            VersionedPacket::V3(p) => if p is Auth {
                r is None
            } else {
                r matches Some(MqttStreamPayload::V3(StreamContent::Packet(q))) && q@ == p@
            },
        },
        r matches Some(s) ==> payload_bytes(s) == versioned_bytes(*packet),
{
    if let Some(c) = convert_mqtt_v5_to_stream_payload(packet) {
        Some(MqttStreamPayload::V5(c))
    } else if let Some(c) = convert_mqtt_v3_to_stream_payload(packet) {
        Some(MqttStreamPayload::V3(c))
    } else {
        None
    }
}

} // verus!
