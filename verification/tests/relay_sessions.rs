use flowsdk::codec::decode::{decode_packet, Decoded};
use flowsdk::codec::packet::{encode_packet, MqttConnect, MqttPacket, MqttReason, Will};
use flowsdk::codec::property::Property;
use flowsdk::relay_sessions::{
    convert_mqtt_to_stream_message, convert_stream_message_to_mqtt_packet, handle_broker_event, handle_stream_event,
    BrokerAction, BrokerEvent, ControlKind, MessageDirection, RelayedPayload, SessionTable, StreamAction,
    StreamEvent, StreamMessage,
};
use flowsdk::stream_payload::VersionedPacket;

fn message(session: &str, payload: RelayedPayload) -> StreamEvent {
    StreamEvent::Message { session_id: session.to_string(), payload: Some(payload) }
}

fn establish(client: &str) -> RelayedPayload {
    RelayedPayload::SessionControl { kind: ControlKind::Establish, client_id: client.to_string() }
}

fn terminate() -> RelayedPayload {
    RelayedPayload::SessionControl { kind: ControlKind::Terminate, client_id: String::new() }
}

#[test]
fn table_registers_replaces_finds_and_forgets_clients() {
    let mut t = SessionTable::new();
    assert_eq!(t.find_client_by_session(&"s1".to_string()), None);
    t.establish("alice".to_string(), "s1".to_string());
    t.establish("bob".to_string(), "s2".to_string());
    assert_eq!(t.find_client_by_session(&"s1".to_string()), Some("alice".to_string()));
    assert_eq!(t.find_client_by_session(&"s2".to_string()), Some("bob".to_string()));
    t.establish("alice".to_string(), "s3".to_string());
    assert_eq!(t.find_client_by_session(&"s1".to_string()), None);
    assert_eq!(t.find_client_by_session(&"s3".to_string()), Some("alice".to_string()));
    assert!(t.remove_client(&"alice".to_string()));
    assert!(!t.remove_client(&"alice".to_string()));
    assert_eq!(t.find_client_by_session(&"s3".to_string()), None);
    assert_eq!(t.find_client_by_session(&"s2".to_string()), Some("bob".to_string()));
}

#[test]
fn packets_reach_the_broker_of_their_session_only_after_establish() {
    let mut t = SessionTable::new();
    let ping = MqttPacket::PingReq;
    assert_eq!(
        handle_stream_event(&mut t, message("s1", RelayedPayload::MqttV5Packet(Some(ping.clone())))),
        StreamAction::Nothing
    );
    assert_eq!(
        handle_stream_event(&mut t, message("s1", establish("alice"))),
        StreamAction::OpenBroker { client_id: "alice".to_string(), session_id: "s1".to_string() }
    );
    assert_eq!(
        handle_stream_event(&mut t, message("s1", RelayedPayload::MqttV5Packet(Some(ping.clone())))),
        StreamAction::ToBroker { client_id: "alice".to_string(), packet: VersionedPacket::V5(ping.clone()) }
    );
    assert_eq!(
        handle_stream_event(&mut t, message("s1", RelayedPayload::MqttV3Packet(Some(ping.clone())))),
        StreamAction::ToBroker { client_id: "alice".to_string(), packet: VersionedPacket::V3(ping.clone()) }
    );
    assert_eq!(
        handle_stream_event(&mut t, message("s1", RelayedPayload::MqttV5Packet(None))),
        StreamAction::Nothing
    );
    assert_eq!(
        handle_stream_event(&mut t, StreamEvent::Message { session_id: "s1".to_string(), payload: None }),
        StreamAction::Nothing
    );
    assert_eq!(
        handle_stream_event(&mut t, message("s9", RelayedPayload::MqttV5Packet(Some(ping)))),
        StreamAction::Nothing
    );
}

#[test]
fn terminate_releases_the_client_of_the_session() {
    let mut t = SessionTable::new();
    handle_stream_event(&mut t, message("s1", establish("alice")));
    assert_eq!(
        handle_stream_event(
            &mut t,
            message("s1", RelayedPayload::SessionControl { kind: ControlKind::Other, client_id: "x".to_string() })
        ),
        StreamAction::Nothing
    );
    assert_eq!(handle_stream_event(&mut t, message("s2", terminate())), StreamAction::Nothing);
    assert_eq!(
        handle_stream_event(&mut t, message("s1", terminate())),
        StreamAction::Released { client_id: "alice".to_string() }
    );
    assert_eq!(t.find_client_by_session(&"s1".to_string()), None);
    assert_eq!(handle_stream_event(&mut t, message("s1", terminate())), StreamAction::Nothing);
}

#[test]
fn stream_end_and_failure_stop_the_reader() {
    let mut t = SessionTable::new();
    assert_eq!(handle_stream_event(&mut t, StreamEvent::Closed), StreamAction::Stop { cancel: true });
    assert_eq!(handle_stream_event(&mut t, StreamEvent::Failed), StreamAction::Stop { cancel: false });
}

#[test]
fn broker_connection_writes_packets_and_drops_the_session_key_on_close() {
    let mut t = SessionTable::new();
    t.establish("alice".to_string(), "s1".to_string());
    t.establish("s1".to_string(), "other".to_string());
    let session = "s1".to_string();
    assert_eq!(
        handle_broker_event(&mut t, &session, BrokerEvent::Send(VersionedPacket::V5(MqttPacket::PingReq))),
        BrokerAction::Write(vec![0xc0, 0])
    );
    let disconnect = MqttPacket::Disconnect(MqttReason { reason_code: 0x04, properties: vec![] });
    assert_eq!(
        handle_broker_event(&mut t, &session, BrokerEvent::Send(VersionedPacket::V5(disconnect.clone()))),
        BrokerAction::Write(vec![0xe0, 1, 0x04])
    );
    assert_eq!(
        handle_broker_event(&mut t, &session, BrokerEvent::Send(VersionedPacket::V3(disconnect))),
        BrokerAction::Write(vec![0xe0, 0])
    );
    assert_eq!(handle_broker_event(&mut t, &session, BrokerEvent::Failed), BrokerAction::Stop);
    assert_eq!(t.find_client_by_session(&"other".to_string()), Some("s1".to_string()));
    assert_eq!(handle_broker_event(&mut t, &session, BrokerEvent::Closed), BrokerAction::Stop);
    assert_eq!(t.find_client_by_session(&"other".to_string()), None);
    assert_eq!(t.find_client_by_session(&"s1".to_string()), Some("alice".to_string()));
    assert_eq!(handle_broker_event(&mut t, &session, BrokerEvent::Cancelled), BrokerAction::Stop);
    assert_eq!(t.find_client_by_session(&"s1".to_string()), Some("alice".to_string()));
}

fn round_trips(packet: VersionedPacket, version: u8) {
    let inner = match &packet {
        VersionedPacket::V3(p) | VersionedPacket::V5(p) => p.clone(),
    };
    for direction in [MessageDirection::ClientToBroker, MessageDirection::BrokerToClient] {
        let message = convert_mqtt_to_stream_message(&packet, "session".to_string(), 42, direction).unwrap();
        assert_eq!(message.sequence_id, 42);
        assert_eq!(message.direction, direction);
        assert_eq!(message.session_id, "session");
        let restored = convert_stream_message_to_mqtt_packet(message).unwrap();
        assert_eq!(restored, packet);
        let restored_inner = match restored {
            VersionedPacket::V3(p) | VersionedPacket::V5(p) => p,
        };
        assert_eq!(encode_packet(&restored_inner, version), encode_packet(&inner, version));
    }
}

#[test]
fn every_packet_type_round_trips_through_a_stream_message() {
    for version in [4u8, 5] {
        let mut packets = vec![
            vec![0x20, 2, 1, 0],
            vec![0x3b, 7, 0, 1, b't', 0, 42, 0, 255],
            vec![0x40, 2, 0, 42],
            vec![0x50, 2, 0, 42],
            vec![0x62, 2, 0, 42],
            vec![0x70, 2, 0, 42],
            vec![0x82, 6, 0, 42, 0, 1, b't', 2],
            vec![0x90, 4, 0, 42, 1, 0x80],
            vec![0xa2, 5, 0, 42, 0, 1, b't'],
            vec![0xb0, 2, 0, 42],
            vec![0xc0, 0],
            vec![0xd0, 0],
            vec![0xe0, 0],
        ];
        if version == 5 {
            for (index, property_offset) in [(0, 4), (1, 7), (6, 4), (7, 4), (8, 4), (9, 4)] {
                packets[index].insert(property_offset, 0);
                packets[index][1] += 1;
            }
            packets[9].push(0x11);
            packets[9][1] += 1;
            packets.push(vec![0xf0, 0]);
        }
        for bytes in packets {
            let packet = match decode_packet(&bytes, version) {
                Decoded::Packet(p, n) if n == bytes.len() => p,
                other => panic!("fixture {:?} in version {}: {:?}", bytes, version, other),
            };
            let versioned = if version == 4 { VersionedPacket::V3(packet) } else { VersionedPacket::V5(packet) };
            round_trips(versioned, version);
        }
    }
}

#[test]
fn connects_keep_credentials_will_and_properties_over_the_stream() {
    for include_will in [false, true] {
        let v3 = MqttConnect {
            client_id: "v3-client".into(),
            username: Some("username".into()),
            password: Some(vec![0, 255]),
            will: if include_will {
                Some(Will { topic: "status".into(), payload: vec![0, 255], qos: 2, retain: true, properties: vec![] })
            } else {
                None
            },
            keep_alive: 30,
            clean_start: false,
            properties: vec![],
        };
        round_trips(VersionedPacket::V3(MqttPacket::Connect(v3)), 4);
        let will = Will {
            topic: "status".into(),
            payload: vec![0, 255],
            qos: 2,
            retain: true,
            properties: vec![
                Property::WillDelayInterval(10),
                Property::PayloadFormatIndicator(0),
                Property::MessageExpiryInterval(20),
                Property::ContentType("binary".into()),
                Property::ResponseTopic("reply".into()),
                Property::CorrelationData(vec![0, 255]),
                Property::UserProperty("key".into(), "one".into()),
                Property::UserProperty("key".into(), "two".into()),
            ],
        };
        let v5 = MqttConnect {
            client_id: "v5-client".into(),
            username: Some("username".into()),
            password: Some(vec![0, 255]),
            will: if include_will { Some(will) } else { None },
            keep_alive: 30,
            clean_start: false,
            properties: vec![Property::SessionExpiryInterval(60), Property::ReceiveMaximum(10)],
        };
        round_trips(VersionedPacket::V5(MqttPacket::Connect(v5)), 5);
    }
}

#[test]
fn messages_without_a_packet_give_none() {
    let message = |payload| StreamMessage {
        session_id: String::new(),
        sequence_id: 0,
        direction: MessageDirection::ClientToBroker,
        payload,
    };
    for payload in [
        None,
        Some(RelayedPayload::MqttV3Packet(None)),
        Some(RelayedPayload::MqttV5Packet(None)),
        Some(RelayedPayload::SessionControl { kind: ControlKind::Other, client_id: "client".into() }),
    ] {
        assert!(convert_stream_message_to_mqtt_packet(message(payload)).is_none());
    }
    let auth = VersionedPacket::V3(MqttPacket::Auth(MqttReason { reason_code: 0, properties: vec![] }));
    assert!(convert_mqtt_to_stream_message(&auth, String::new(), 0, MessageDirection::BrokerToClient).is_none());
}
