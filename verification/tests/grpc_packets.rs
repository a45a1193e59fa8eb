use flowsdk::codec::packet::{
    MqttAck, MqttConnAck, MqttConnect, MqttPublish, MqttReason, MqttSubAck, MqttSubscribe, MqttUnsubscribe,
    TopicSubscription, Will,
};
use flowsdk::codec::property::Property;
use flowsdk::grpc::{PbProperty, PbPropertyType};
use flowsdk::grpc_packets::{
    ack_to_pb, connack_to_pb, connect_to_pb, pb_to_ack, pb_to_connack, pb_to_connect, pb_to_publish, pb_to_reason,
    pb_to_subscribe, pb_to_suback, pb_to_unsubscribe, publish_to_pb, reason_to_pb, subscribe_to_pb, suback_to_pb,
    unsubscribe_to_pb, PbAck, PbConnect, PbPublish, PbSubscribe, PbSuback, PbTopicSubscription, PbWill,
};
use flowsdk::grpc_packets::{
    pb_v3_to_ack, pb_v3_to_connect, pb_v3_to_publish, pb_v3_to_suback, pb_v3_to_unsuback, v3_ack_to_pb,
    v3_connect_to_pb, v3_publish_to_pb, v3_suback_to_pb, v3_unsuback_to_pb, PbV3Ack, PbV3Publish,
};

fn publish(packet_id: Option<u16>) -> MqttPublish {
    MqttPublish {
        qos: 1,
        topic_name: "a/b".to_string(),
        packet_id,
        payload: vec![1, 2, 3],
        retain: true,
        dup: false,
        properties: vec![Property::TopicAlias(7), Property::PayloadFormatIndicator(1)],
    }
}

#[test]
fn publish_goes_to_protobuf_and_back() {
    let pb = publish_to_pb(publish(Some(9)));
    assert_eq!(pb.topic, "a/b");
    assert_eq!(pb.qos, 1);
    assert_eq!(pb.message_id, 9);
    assert_eq!(pb.properties[0].property_type, Some(PbPropertyType::TopicAlias(7)));
    assert_eq!(pb.properties[1].property_type, Some(PbPropertyType::PayloadFormatIndicator(true)));
    assert_eq!(pb_to_publish(pb), publish(Some(9)));
    assert_eq!(publish_to_pb(publish(None)).message_id, 0);
}

#[test]
fn protobuf_publish_keeps_its_message_id_and_narrows_numbers() {
    let pb = PbPublish {
        topic: "t".to_string(),
        payload: vec![],
        qos: 0,
        retain: false,
        dup: false,
        message_id: 0x1_0005,
        properties: vec![PbProperty { property_type: None }],
    };
    let p = pb_to_publish(pb);
    assert_eq!(p.qos, 0);
    assert_eq!(p.packet_id, Some(5));
    assert!(p.properties.is_empty());
}

#[test]
fn acknowledgements_and_reasons_convert_both_ways() {
    let ack = MqttAck { packet_id: 3, reason_code: 0x10, properties: vec![Property::ReasonString("r".to_string())] };
    let pb = ack_to_pb(ack.clone());
    assert_eq!((pb.message_id, pb.reason_code), (3, 0x10));
    assert_eq!(pb_to_ack(pb), ack);
    assert_eq!(pb_to_ack(PbAck { message_id: 0x2_0001, reason_code: 0x180, properties: vec![] }).packet_id, 1);
    let connack = MqttConnAck { session_present: true, reason_code: 0x87, properties: vec![] };
    let pb = connack_to_pb(connack.clone());
    assert_eq!(pb.reason_code, 0x87);
    assert_eq!(pb_to_connack(pb), connack);
    let reason = MqttReason { reason_code: 4, properties: vec![] };
    assert_eq!(pb_to_reason(reason_to_pb(reason.clone())), reason);
}

#[test]
fn subscriptions_and_their_acknowledgements_convert_both_ways() {
    let sub = MqttSubscribe {
        packet_id: 12,
        subscriptions: vec![TopicSubscription {
            topic_filter: "x/#".to_string(),
            qos: 2,
            no_local: true,
            retain_as_published: false,
            retain_handling: 1,
        }],
        properties: vec![Property::SubscriptionIdentifier(5)],
    };
    let pb = subscribe_to_pb(sub.clone());
    assert_eq!(pb.subscriptions[0].qos, 2);
    assert_eq!(pb.subscriptions[0].retain_handling, 1);
    assert_eq!(pb_to_subscribe(pb), sub);
    let wide = PbSubscribe {
        message_id: 1,
        subscriptions: vec![PbTopicSubscription {
            topic_filter: "y".to_string(),
            qos: 258,
            no_local: false,
            retain_as_published: true,
            retain_handling: 256,
        }],
        properties: vec![],
    };
    let narrowed = pb_to_subscribe(wide);
    assert_eq!(narrowed.subscriptions[0].qos, 2);
    assert_eq!(narrowed.subscriptions[0].retain_handling, 0);
    let suback = MqttSubAck { packet_id: 12, reason_codes: vec![0, 1, 0x80], properties: vec![] };
    let pb = suback_to_pb(suback.clone());
    assert_eq!(pb.reason_codes, vec![0, 1, 0x80]);
    assert_eq!(pb_to_suback(pb), suback);
    assert_eq!(pb_to_suback(PbSuback { message_id: 2, reason_codes: vec![0x101], properties: vec![] }).reason_codes, vec![1]);
    let unsub = MqttUnsubscribe { packet_id: 4, topics: vec!["a".to_string(), "b".to_string()], properties: vec![] };
    let pb = unsubscribe_to_pb(unsub.clone());
    assert_eq!(pb.topic_filters, vec!["a".to_string(), "b".to_string()]);
    assert_eq!(pb_to_unsubscribe(pb), unsub);
}

#[test]
fn connect_uses_empty_strings_for_missing_credentials() {
    let connect = MqttConnect {
        client_id: "c".to_string(),
        username: None,
        password: Some(vec![7]),
        will: Some(Will {
            topic: "w".to_string(),
            payload: vec![1],
            qos: 1,
            retain: true,
            properties: vec![Property::WillDelayInterval(30)],
        }),
        keep_alive: 60,
        clean_start: true,
        properties: vec![Property::SessionExpiryInterval(10)],
    };
    let pb = connect_to_pb(connect.clone());
    assert_eq!(pb.protocol_name, "MQTT");
    assert_eq!(pb.protocol_version, 5);
    assert_eq!(pb.username, "");
    assert_eq!(pb.password, vec![7]);
    assert_eq!(pb.keep_alive, 60);
    assert_eq!(pb.will.as_ref().map(|w| w.qos), Some(1));
    assert_eq!(pb_to_connect(pb), connect);
}

#[test]
fn protobuf_will_keeps_only_will_properties() {
    let pb = PbConnect {
        client_id: "c".to_string(),
        protocol_name: "MQTT".to_string(),
        protocol_version: 5,
        clean_start: false,
        keep_alive: 0x1_0001,
        username: "u".to_string(),
        password: vec![],
        will: Some(PbWill {
            qos: 2,
            retain: false,
            topic: "w".to_string(),
            payload: vec![],
            properties: vec![
                PbProperty { property_type: Some(PbPropertyType::ReceiveMaximum(5)) },
                PbProperty { property_type: Some(PbPropertyType::ContentType("text".to_string())) },
            ],
        }),
        properties: vec![],
    };
    let c = pb_to_connect(pb);
    assert_eq!(c.username, Some("u".to_string()));
    assert_eq!(c.password, None);
    assert_eq!(c.keep_alive, 1);
    assert_eq!(c.will.unwrap().properties, vec![Property::ContentType("text".to_string())]);
}

#[test]
fn mqtt3_forms_carry_no_properties_and_publish_id_zero_is_none() {
    let pb = v3_publish_to_pb(publish(None));
    assert_eq!(pb.message_id, 0);
    let back = pb_v3_to_publish(pb);
    assert_eq!(back.packet_id, None);
    assert!(back.properties.is_empty());
    let pb = PbV3Publish { topic: "t".to_string(), payload: vec![], qos: 1, retain: false, dup: true, message_id: 4 };
    assert_eq!(pb_v3_to_publish(pb).packet_id, Some(4));
    let ack = pb_v3_to_ack(v3_ack_to_pb(MqttAck { packet_id: 8, reason_code: 0x80, properties: vec![] }));
    assert_eq!((ack.packet_id, ack.reason_code), (8, 0));
    let unsuback = pb_v3_to_unsuback(v3_unsuback_to_pb(MqttSubAck { packet_id: 6, reason_codes: vec![0], properties: vec![] }));
    assert_eq!(unsuback.packet_id, 6);
    assert!(unsuback.reason_codes.is_empty());
    assert_eq!(pb_v3_to_ack(PbV3Ack { message_id: 0x1_0002 }).packet_id, 2);
    let suback = MqttSubAck { packet_id: 3, reason_codes: vec![0, 0x80], properties: vec![] };
    assert_eq!(pb_v3_to_suback(v3_suback_to_pb(suback.clone())), suback);
    let connect = MqttConnect {
        client_id: "c".to_string(),
        username: Some("u".to_string()),
        password: None,
        will: None,
        keep_alive: 30,
        clean_start: true,
        properties: vec![],
    };
    let pb = v3_connect_to_pb(connect.clone());
    assert_eq!(pb.protocol_version, 4);
    assert!(pb.clean_session);
    assert_eq!(pb_v3_to_connect(pb), connect);
}
