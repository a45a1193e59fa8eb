use flowsdk::codec::packet::{MqttAck, MqttConnAck, MqttPacket, MqttSubAck, MqttSubscribe, MqttUnsubscribe, Will};
use flowsdk::mqtt_client::client::{
    is_awaited, publish_ack_result, suback_result, unacknowledged_publish_result, unsuback_result, Awaited,
    Context, MqttClient, PublishResult, SubscribeResult, UnsubscribeResult,
};
use flowsdk::mqtt_client::opts::MqttClientOptions;
use flowsdk::mqtt_client::session::ClientSession;

fn options() -> MqttClientOptions {
    MqttClientOptions::builder().peer("localhost:1883").client_id("blocking").build()
}

fn connack(reason_code: u8, session_present: bool) -> MqttPacket {
    MqttPacket::ConnAck(MqttConnAck { session_present, reason_code, properties: vec![] })
}

#[test]
fn a_new_client_has_no_session_until_it_connects() {
    let mut c = MqttClient::new(options());
    assert_eq!(c.peer(), "localhost:1883");
    assert!(c.prepare_subscribe("a/b", 1).is_none());
    assert!(c.prepare_publish("a/b", b"x", 0, false).is_none());
    match c.prepare_connect() {
        MqttPacket::Connect(connect) => {
            assert_eq!(connect.client_id, "blocking");
            assert!(connect.clean_start);
            assert!(connect.properties.is_empty());
        }
        other => panic!("expected CONNECT, got {:?}", other),
    }
    let (id, packet) = c.prepare_subscribe("a/b", 1).unwrap();
    assert_eq!(id, 1);
    match packet {
        MqttPacket::Subscribe(MqttSubscribe { packet_id, subscriptions, properties }) => {
            assert_eq!(packet_id, 1);
            assert_eq!(subscriptions.len(), 1);
            assert_eq!(subscriptions[0].topic_filter, "a/b");
            assert_eq!(subscriptions[0].qos, 1);
            assert!(!subscriptions[0].no_local);
            assert_eq!(subscriptions[0].retain_handling, 0);
            assert!(properties.is_empty());
        }
        other => panic!("expected SUBSCRIBE, got {:?}", other),
    }
}

#[test]
fn sessionless_clients_connect_clean_and_keep_no_session() {
    let mut o = options();
    o.sessionless = true;
    o.clean_start = false;
    o.will = Some(Will { topic: "w".into(), payload: vec![1], qos: 1, retain: true, properties: vec![] });
    let mut c = MqttClient::new_with_sess(o, ClientSession::new());
    match c.prepare_connect() {
        MqttPacket::Connect(connect) => {
            assert!(connect.clean_start);
            assert_eq!(connect.will.unwrap().topic, "w");
        }
        other => panic!("expected CONNECT, got {:?}", other),
    }
    assert!(c.prepare_subscribe("t", 0).is_none());
}

#[test]
fn identifiers_follow_the_session_and_qos0_takes_none() {
    let mut c = MqttClient::new_with_sess(options(), ClientSession::new());
    assert_eq!(c.prepare_publish("t", b"p", 0, false).unwrap().0, None);
    assert_eq!(c.prepare_publish("t", b"p", 1, false).unwrap().0, Some(1));
    let (id, packet) = c.prepare_unsubscribe(vec!["t".to_string(), "u".to_string()]).unwrap();
    assert_eq!(id, 2);
    assert_eq!(
        packet,
        MqttPacket::Unsubscribe(MqttUnsubscribe {
            packet_id: 2,
            topics: vec!["t".to_string(), "u".to_string()],
            properties: vec![]
        })
    );
    match c.prepare_publish("t", b"p", 2, true).unwrap() {
        (Some(3), MqttPacket::Publish(p)) => {
            assert_eq!(p.payload, b"p".to_vec());
            assert!(p.retain);
            assert!(!p.dup);
        }
        other => panic!("unexpected {:?}", other),
    }
}

#[test]
fn connack_records_the_session_and_a_fresh_session_drops_pending_work() {
    let mut c = MqttClient::new_with_sess(options(), ClientSession::new());
    c.track_subscribe(1, "a");
    c.track_publish(2, "b", 1);
    assert!(c.handle_connack(MqttPacket::PingResp).is_none());
    let r = c.handle_connack(connack(0, true)).unwrap();
    assert!(r.session_present);
    assert!(c.session_present());
    assert_eq!(c.get_pending_subscribes().len(), 1);
    let r = c.handle_connack(connack(0x87, false)).unwrap();
    assert_eq!(r.reason_code, 0x87);
    assert_eq!(c.get_pending_publishes().len(), 1);
    c.handle_connack(connack(0, false)).unwrap();
    assert!(!c.session_present());
    assert!(c.get_pending_subscribes().is_empty());
    assert!(c.get_pending_publishes().is_empty());
}

#[test]
fn tracked_operations_complete_once() {
    let mut c = MqttClient::new(options());
    c.track_subscribe(5, "a/b");
    c.track_unsubscribe(6, &vec!["x".to_string()]);
    c.track_publish(7, "c", 2);
    assert_eq!(c.get_pending_subscribes().get(&5), Some(&"a/b".to_string()));
    assert_eq!(c.complete_subscribe(5), Some("a/b".to_string()));
    assert_eq!(c.complete_subscribe(5), None);
    assert_eq!(c.complete_unsubscribe(6), Some(vec!["x".to_string()]));
    assert_eq!(c.complete_publish(7), Some(("c".to_string(), 2)));
    assert_eq!(c.complete_publish(7), None);
    c.track_publish(8, "d", 1);
    c.clear_pending_operations();
    assert!(c.get_pending_publishes().is_empty());
    assert!(c.get_pending_unsubscribes().is_empty());
}

#[test]
fn unhandled_packets_come_back_oldest_first() {
    let mut c = MqttClient::new(options());
    assert_eq!(c.pop_unhandled_packet(), None);
    c.file_unhandled(MqttPacket::PingResp);
    c.file_unhandled(connack(0, false));
    assert_eq!(c.peek_unhandled_packets().len(), 2);
    assert_eq!(c.pop_unhandled_packet(), Some(MqttPacket::PingResp));
    c.unhandled_packets_mut().push(MqttPacket::PingReq);
    assert_eq!(c.peek_unhandled_packets().len(), 2);
    c.unhandled_packets_mut().remove(0);
    assert_eq!(c.pop_unhandled_packet(), Some(MqttPacket::PingReq));
    c.clear_unhandled_packets();
    assert_eq!(c.pop_unhandled_packet(), None);
}

#[test]
fn replies_are_matched_by_kind_and_identifier() {
    let suback = MqttPacket::SubAck(MqttSubAck { packet_id: 4, reason_codes: vec![1], properties: vec![] });
    assert!(is_awaited(&suback, Awaited::SubAck(4)));
    assert!(!is_awaited(&suback, Awaited::SubAck(5)));
    assert!(!is_awaited(&suback, Awaited::UnsubAck(4)));
    assert!(is_awaited(&MqttPacket::PingResp, Awaited::PingResp));
    let pubrec = MqttPacket::PubRec(MqttAck { packet_id: 9, reason_code: 0, properties: vec![] });
    assert!(is_awaited(&pubrec, Awaited::PubRec(9)));
    assert!(!is_awaited(&pubrec, Awaited::PubComp(9)));
    assert_eq!(
        suback_result(suback),
        Some(SubscribeResult { packet_id: 4, reason_codes: vec![1], properties: vec![] })
    );
    assert_eq!(suback_result(MqttPacket::PingResp), None);
    let unsuback = MqttPacket::UnsubAck(MqttSubAck { packet_id: 3, reason_codes: vec![0x11], properties: vec![] });
    assert_eq!(
        unsuback_result(unsuback),
        Some(UnsubscribeResult { packet_id: 3, reason_codes: vec![0x11], properties: vec![] })
    );
    assert_eq!(
        publish_ack_result(MqttPacket::PubAck(MqttAck { packet_id: 2, reason_code: 0x10, properties: vec![] })),
        Some(PublishResult { packet_id: Some(2), reason_code: Some(0x10), properties: Some(vec![]), qos: 1 })
    );
    assert_eq!(
        publish_ack_result(MqttPacket::PubComp(MqttAck { packet_id: 2, reason_code: 0, properties: vec![] })),
        Some(PublishResult { packet_id: Some(2), reason_code: Some(0), properties: Some(vec![]), qos: 2 })
    );
    assert_eq!(publish_ack_result(pubrec), None);
    assert_eq!(
        unacknowledged_publish_result(None, 0),
        PublishResult { packet_id: None, reason_code: None, properties: None, qos: 0 }
    );
}

#[test]
fn contexts_start_empty() {
    let _ = Context::new("h:1".to_string());
    let _ = Context::new_with_sess("h:1".to_string(), ClientSession::new());
}
