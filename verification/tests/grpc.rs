use flowsdk::codec::packet::{MqttAck, MqttConnect, MqttPacket, MqttReason, Will};
use flowsdk::relay::{broker_call, relay_step, RelayCall, RelayReply, RelayStep};
use flowsdk::codec::property::Property;
use flowsdk::grpc::{
    convert_properties_from_pb, convert_properties_to_pb, property_from_pb, property_to_pb, PbProperty, PbPropertyType,
};
use flowsdk::stream_payload::{
    convert_mqtt_to_stream_payload, convert_mqtt_v3_to_stream_payload, convert_mqtt_v5_to_stream_payload,
    convert_stream_payload_to_bytes, convert_stream_payload_to_mqtt_bytes, convert_v3_stream_payload_to_mqtt_bytes,
    detect_mqtt_version,
    MqttStreamPayload, StreamContent, VersionedPacket,
};

#[test]
fn properties_preserve_widths_binary_values_and_repeated_keys() {
    let properties = vec![
        Property::PayloadFormatIndicator(0),
        Property::PayloadFormatIndicator(1),
        Property::MessageExpiryInterval(u32::MAX),
        Property::ContentType("binary".into()),
        Property::ResponseTopic("reply".into()),
        Property::CorrelationData(vec![0, 255]),
        Property::SubscriptionIdentifier(268_435_455),
        Property::SessionExpiryInterval(u32::MAX),
        Property::AssignedClientIdentifier("client".into()),
        Property::ServerKeepAlive(u16::MAX),
        Property::AuthenticationMethod("method".into()),
        Property::AuthenticationData(vec![0, 255]),
        Property::RequestProblemInformation(0),
        Property::RequestProblemInformation(1),
        Property::WillDelayInterval(u32::MAX),
        Property::RequestResponseInformation(0),
        Property::RequestResponseInformation(1),
        Property::ResponseInformation("info".into()),
        Property::ServerReference("server".into()),
        Property::ReasonString("reason".into()),
        Property::ReceiveMaximum(u16::MAX),
        Property::TopicAliasMaximum(u16::MAX),
        Property::TopicAlias(1),
        Property::MaximumQoS(1),
        Property::RetainAvailable(0),
        Property::RetainAvailable(1),
        Property::UserProperty("key".into(), "one".into()),
        Property::UserProperty("key".into(), "two".into()),
        Property::MaximumPacketSize(u32::MAX),
        Property::WildcardSubscriptionAvailable(0),
        Property::WildcardSubscriptionAvailable(1),
        Property::SubscriptionIdentifierAvailable(0),
        Property::SubscriptionIdentifierAvailable(1),
        Property::SharedSubscriptionAvailable(0),
        Property::SharedSubscriptionAvailable(1),
    ];
    let converted: Vec<PbProperty> = properties.iter().cloned().map(property_to_pb).collect();
    let restored: Vec<Property> = converted.into_iter().map(|p| property_from_pb(p).unwrap()).collect();
    assert_eq!(restored, properties);
    assert!(property_from_pb(PbProperty { property_type: None }).is_none());
}

#[test]
fn flags_become_booleans_and_narrow_integers_widen() {
    assert_eq!(
        property_to_pb(Property::PayloadFormatIndicator(2)),
        PbProperty { property_type: Some(PbPropertyType::PayloadFormatIndicator(true)) }
    );
    assert_eq!(
        property_from_pb(property_to_pb(Property::PayloadFormatIndicator(2))),
        Some(Property::PayloadFormatIndicator(1))
    );
    assert_eq!(
        property_to_pb(Property::ReceiveMaximum(300)),
        PbProperty { property_type: Some(PbPropertyType::ReceiveMaximum(300)) }
    );
    assert_eq!(
        property_from_pb(PbProperty { property_type: Some(PbPropertyType::MaximumQos(0x102)) }),
        Some(Property::MaximumQoS(2))
    );
}

#[test]
fn list_conversions_keep_order_and_drop_empty_values() {
    let props = vec![Property::TopicAlias(3), Property::ContentType("x".into())];
    let pb = convert_properties_to_pb(props.clone());
    assert_eq!(pb.len(), 2);
    let mut with_gap = pb.clone();
    with_gap.insert(1, PbProperty { property_type: None });
    assert_eq!(convert_properties_from_pb(with_gap), props);
    assert_eq!(convert_properties_from_pb(pb), props);
}

fn test_v3_connect() -> MqttConnect {
    MqttConnect {
        client_id: "test_client_v3".to_string(),
        username: Some("test_user".to_string()),
        password: Some(b"test_pass".to_vec()),
        will: Some(Will {
            topic: "test/will".to_string(),
            payload: b"will message".to_vec(),
            qos: 1,
            retain: false,
            properties: vec![],
        }),
        keep_alive: 60,
        clean_start: true,
        properties: vec![],
    }
}

fn test_v5_connect() -> MqttConnect {
    MqttConnect {
        client_id: "test_client_v5".to_string(),
        username: Some("test_user".to_string()),
        password: Some(b"test_pass".to_vec()),
        will: None,
        keep_alive: 60,
        clean_start: true,
        properties: vec![],
    }
}

#[test]
fn test_v3_connect_bidirectional_conversion() {
    let first_connect = test_v3_connect();
    let content = convert_mqtt_v3_to_stream_payload(&VersionedPacket::V3(MqttPacket::Connect(first_connect.clone())))
        .unwrap();
    let converted_back = match content {
        StreamContent::Packet(MqttPacket::Connect(c)) => c,
        other => panic!("unexpected stream content {:?}", other),
    };
    assert_eq!(first_connect.client_id, converted_back.client_id);
    assert_eq!(first_connect.clean_start, converted_back.clean_start);
    assert_eq!(first_connect.keep_alive, converted_back.keep_alive);
    assert_eq!(first_connect.username, converted_back.username);
    assert_eq!(first_connect.password, converted_back.password);
}

#[test]
fn test_version_detection() {
    let v3_packet = VersionedPacket::V3(MqttPacket::Connect(test_v3_connect()));
    let v5_packet = VersionedPacket::V5(MqttPacket::Connect(test_v5_connect()));
    assert_eq!(detect_mqtt_version(&v3_packet), 3);
    assert_eq!(detect_mqtt_version(&v5_packet), 5);
}

#[test]
fn test_stream_payload_utility_methods() {
    let v3_packet = VersionedPacket::V3(MqttPacket::Connect(test_v3_connect()));
    if let Some(payload) = convert_mqtt_to_stream_payload(&v3_packet) {
        assert!(payload.is_v3());
        assert!(!payload.is_v5());
        assert!(payload.to_bytes().is_some());
    } else {
        panic!("Failed to convert v3 packet to stream payload");
    }
}

#[test]
fn test_v3_stream_payload_to_bytes() {
    let payload = StreamContent::Packet(MqttPacket::Connect(test_v3_connect()));
    let bytes = convert_v3_stream_payload_to_mqtt_bytes(&payload);
    assert!(bytes.is_some());
    assert!(!bytes.unwrap().is_empty());
}

#[test]
fn session_control_has_no_mqtt_bytes() {
    assert_eq!(convert_stream_payload_to_mqtt_bytes(&StreamContent::SessionControl), None);
    assert_eq!(convert_v3_stream_payload_to_mqtt_bytes(&StreamContent::SessionControl), None);
    assert_eq!(MqttStreamPayload::V5(StreamContent::SessionControl).to_bytes(), None);
    assert_eq!(convert_stream_payload_to_bytes(&MqttStreamPayload::V3(StreamContent::SessionControl)), None);
    assert_eq!(
        convert_stream_payload_to_bytes(&MqttStreamPayload::V3(StreamContent::Packet(MqttPacket::PingResp))),
        Some(vec![0xd0, 0])
    );
    let v5 = MqttStreamPayload::V5(StreamContent::Packet(MqttPacket::PingReq));
    assert!(v5.is_v5());
    assert_eq!(v5.to_bytes(), Some(vec![0xc0, 0]));
}

#[test]
fn packets_go_to_the_stream_of_their_version() {
    let ping = MqttPacket::PingReq;
    assert_eq!(convert_mqtt_v5_to_stream_payload(&VersionedPacket::V3(ping.clone())), None);
    assert_eq!(convert_mqtt_v3_to_stream_payload(&VersionedPacket::V5(ping.clone())), None);
    assert_eq!(
        convert_mqtt_to_stream_payload(&VersionedPacket::V5(ping.clone())),
        Some(MqttStreamPayload::V5(StreamContent::Packet(ping.clone())))
    );
    assert_eq!(
        convert_mqtt_to_stream_payload(&VersionedPacket::V3(ping.clone())),
        Some(MqttStreamPayload::V3(StreamContent::Packet(ping)))
    );
    let auth = MqttPacket::Auth(MqttReason { reason_code: 0x18, properties: vec![] });
    assert_eq!(convert_mqtt_v3_to_stream_payload(&VersionedPacket::V3(auth.clone())), None);
    assert_eq!(convert_mqtt_to_stream_payload(&VersionedPacket::V3(auth.clone())), None);
    assert_eq!(convert_stream_payload_to_mqtt_bytes(&StreamContent::Packet(auth.clone())), Some(vec![0xf0, 1, 0x18]));
    assert_eq!(convert_v3_stream_payload_to_mqtt_bytes(&StreamContent::Packet(auth)), None);
}

#[test]
fn v3_and_v5_bytes_of_a_connect_differ_in_level_and_properties() {
    let c = MqttPacket::Connect(test_v5_connect());
    let v5 = convert_stream_payload_to_mqtt_bytes(&StreamContent::Packet(c.clone())).unwrap();
    let v3 = convert_v3_stream_payload_to_mqtt_bytes(&StreamContent::Packet(c)).unwrap();
    assert_eq!(&v5[2..9], &[0, 4, b'M', b'Q', b'T', b'T', 5]);
    assert_eq!(&v3[2..9], &[0, 4, b'M', b'Q', b'T', b'T', 4]);
    assert_eq!(v5.len(), v3.len() + 1);
}

#[test]
fn relay_routes_client_packets() {
    assert_eq!(relay_step(&MqttPacket::PingResp), RelayStep::Ignore);
    assert_eq!(
        relay_step(&MqttPacket::PingReq),
        RelayStep::Forward { call: RelayCall::PingReq, reply: RelayReply::PingResp, close: false }
    );
    assert_eq!(
        relay_step(&MqttPacket::PubRec(MqttAck { packet_id: 1, reason_code: 0, properties: vec![] })),
        RelayStep::Forward { call: RelayCall::PubRec, reply: RelayReply::Answer, close: false }
    );
    assert_eq!(
        relay_step(&MqttPacket::Disconnect(MqttReason { reason_code: 0, properties: vec![] })),
        RelayStep::Forward { call: RelayCall::Disconnect, reply: RelayReply::Nothing, close: true }
    );
}

#[test]
fn broker_packets_go_back_over_the_matching_call() {
    let ack = MqttAck { packet_id: 7, reason_code: 0, properties: vec![] };
    assert_eq!(broker_call(&MqttPacket::PubAck(ack.clone())), Some(RelayCall::PubAck));
    assert_eq!(broker_call(&MqttPacket::PubRel(ack)), Some(RelayCall::PubRel));
    assert_eq!(broker_call(&MqttPacket::PingResp), Some(RelayCall::PingReq));
    assert_eq!(broker_call(&MqttPacket::PingReq), None);
    assert_eq!(
        broker_call(&MqttPacket::Disconnect(MqttReason { reason_code: 0, properties: vec![] })),
        Some(RelayCall::Disconnect)
    );
    assert_eq!(broker_call(&MqttPacket::Connect(test_v3_connect())), None);
}
