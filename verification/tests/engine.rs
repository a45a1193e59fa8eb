use flowsdk::codec::packet::TopicSubscription;
use flowsdk::mqtt_client::commands::{PublishCommand, SubscribeCommand, UnsubscribeCommand};
use flowsdk::mqtt_client::engine::{MqttEngine, MqttEvent};
use flowsdk::mqtt_client::error::MqttClientError;
use flowsdk::mqtt_client::no_io_client::NoIoMqttClient;
use flowsdk::mqtt_client::opts::MqttClientOptions;

fn connect_v5_bytes() -> Vec<u8> {
    let mut v = vec![0x10, 24, 0, 4, b'M', b'Q', b'T', b'T', 5, 2, 0, 60, 0, 0, 11];
    v.extend_from_slice(b"mqtt_client");
    v
}

fn connected_engine(version: u8) -> MqttEngine {
    let mut engine = MqttEngine::new(MqttClientOptions::builder().mqtt_version(version).build());
    engine.connect();
    let _ = engine.take_outgoing();
    let connack: &[u8] = if version == 5 { &[0x20, 3, 0, 0, 0] } else { &[0x20, 2, 0, 0] };
    let events = engine.handle_incoming(connack, engine.elapsed_millis());
    assert_eq!(events.len(), 1);
    assert!(engine.is_connected());
    engine
}

fn publish(topic: &str, qos: u8, priority: u8) -> PublishCommand {
    PublishCommand {
        topic_name: topic.to_string(),
        payload: vec![1, 2],
        qos,
        retain: false,
        dup: false,
        packet_id: None,
        properties: vec![],
        priority,
    }
}

#[test]
fn connect_queues_connect_packet() {
    let mut engine = MqttEngine::new(MqttClientOptions::default());
    assert_eq!(engine.mqtt_version(), 5);
    engine.connect();
    assert_eq!(engine.take_outgoing(), connect_v5_bytes());
    assert_eq!(engine.take_outgoing(), Vec::<u8>::new());
}

#[test]
fn mqtt311_connect_leaves_out_credentials() {
    let options = MqttClientOptions::builder().mqtt_version(4).username("u").password(vec![1]).build();
    let mut engine = MqttEngine::new(options);
    engine.connect();
    let mut expected = vec![0x10, 23, 0, 4, b'M', b'Q', b'T', b'T', 4, 2, 0, 60, 0, 11];
    expected.extend_from_slice(b"mqtt_client");
    assert_eq!(engine.take_outgoing(), expected);
}

#[test]
fn connack_connects_and_reports() {
    let mut engine = MqttEngine::new(MqttClientOptions::default());
    engine.connect();
    let events = engine.handle_incoming(&[0x20, 3, 1, 0, 0], engine.elapsed_millis());
    match &events[..] {
        [MqttEvent::Connected(r)] => {
            assert!(r.is_success());
            assert!(r.session_present);
            assert_eq!(r.reason_description(), "Success");
        }
        other => panic!("{other:?}"),
    }
    assert!(engine.is_connected());
}

#[test]
fn refused_connack_leaves_engine_disconnected() {
    let mut engine = MqttEngine::new(MqttClientOptions::default());
    engine.connect();
    let events = engine.handle_incoming(&[0x20, 3, 0, 0x87, 0], engine.elapsed_millis());
    match &events[..] {
        [MqttEvent::Connected(r)] => {
            assert!(r.is_failure());
            assert_eq!(r.reason_description(), "Unknown reason code");
        }
        other => panic!("{other:?}"),
    }
    assert!(!engine.is_connected());
}

#[test]
fn packet_id_needs_a_session() {
    let mut engine = MqttEngine::new(MqttClientOptions::default());
    match engine.next_packet_id() {
        Err(MqttClientError::ProtocolViolation { message }) => {
            assert_eq!(message, "No session available for packet ID allocation")
        }
        other => panic!("{other:?}"),
    }
    assert!(engine.publish(publish("t", 1, 0)).is_err());
    assert_eq!(engine.publish(publish("t", 0, 0)), Ok(None));
}

#[test]
fn qos1_publish_is_sent_and_settled_by_puback() {
    let mut engine = connected_engine(5);
    assert_eq!(engine.publish(publish("t", 1, 0)), Ok(Some(1)));
    assert_eq!(engine.take_outgoing(), vec![0x32, 8, 0, 1, b't', 0, 1, 0, 1, 2]);
    assert_eq!(engine.next_tick_at().is_some(), true);
    let events = engine.handle_incoming(&[0x40, 2, 0, 1], engine.elapsed_millis());
    match &events[..] {
        [MqttEvent::Published(r)] => {
            assert_eq!(r.packet_id, Some(1));
            assert_eq!(r.qos, 1);
            assert!(r.is_success());
        }
        other => panic!("{other:?}"),
    }
    assert!(engine.handle_incoming(&[0x40, 2, 0, 1], engine.elapsed_millis()).is_empty());
}

#[test]
fn publications_wait_while_disconnected_and_leave_by_priority() {
    let mut engine = MqttEngine::new(MqttClientOptions::builder().mqtt_version(4).build());
    engine.connect();
    let _ = engine.take_outgoing();
    assert_eq!(engine.publish(publish("a", 0, 1)), Ok(None));
    assert_eq!(engine.publish(publish("b", 0, 5)), Ok(None));
    assert_eq!(engine.take_outgoing(), Vec::<u8>::new());
    engine.handle_incoming(&[0x20, 2, 0, 0], engine.elapsed_millis());
    assert_eq!(engine.publish(publish("c", 0, 1)), Ok(None));
    let out = engine.take_outgoing();
    let topic = |t: u8| vec![0x30, 5, 0, 1, t, 1, 2];
    let expected: Vec<u8> = [topic(b'b'), topic(b'a'), topic(b'c')].concat();
    assert_eq!(out, expected);
}

#[test]
fn incoming_qos_messages_are_acknowledged() {
    let mut engine = connected_engine(4);
    let events = engine.handle_incoming(&[0x32, 6, 0, 1, b't', 0, 9, 7, 0x34, 5, 0, 1, b'u', 0, 10], engine.elapsed_millis());
    assert_eq!(events.len(), 2);
    match &events[0] {
        MqttEvent::MessageReceived(p) => {
            assert_eq!(p.topic_name, "t");
            assert_eq!(p.payload, vec![7]);
        }
        other => panic!("{other:?}"),
    }
    assert_eq!(engine.take_outgoing(), vec![0x40, 2, 0, 9, 0x50, 2, 0, 10]);
    engine.handle_incoming(&[0x62, 2, 0, 10], engine.elapsed_millis());
    assert_eq!(engine.take_outgoing(), vec![0x70, 2, 0, 10]);
}

#[test]
fn pubrec_is_answered_with_pubrel_and_pubcomp_settles() {
    let mut engine = connected_engine(5);
    assert_eq!(engine.publish(publish("t", 2, 0)), Ok(Some(1)));
    let _ = engine.take_outgoing();
    assert!(engine.handle_incoming(&[0x50, 2, 0, 1], engine.elapsed_millis()).is_empty());
    assert_eq!(engine.take_outgoing(), vec![0x62, 2, 0, 1]);
    match &engine.handle_incoming(&[0x70, 2, 0, 1], engine.elapsed_millis())[..] {
        [MqttEvent::Published(r)] => assert_eq!(r.qos, 2),
        other => panic!("{other:?}"),
    }
}

#[test]
fn subscribe_and_unsubscribe_round() {
    let mut engine = connected_engine(5);
    let sub = SubscribeCommand {
        packet_id: None,
        subscriptions: vec![TopicSubscription {
            topic_filter: "t".to_string(),
            qos: 1,
            no_local: false,
            retain_as_published: false,
            retain_handling: 0,
        }],
        properties: vec![],
    };
    assert_eq!(engine.subscribe(sub), Ok(1));
    assert_eq!(engine.take_outgoing(), vec![0x82, 7, 0, 1, 0, 0, 1, b't', 1]);
    match &engine.handle_incoming(&[0x90, 4, 0, 1, 0, 1], engine.elapsed_millis())[..] {
        [MqttEvent::Subscribed(r)] => {
            assert!(r.is_success());
            assert_eq!(r.successful_subscriptions(), 1);
        }
        other => panic!("{other:?}"),
    }
    let unsub = UnsubscribeCommand { packet_id: Some(77), topics: vec!["t".to_string()], properties: vec![] };
    assert_eq!(engine.unsubscribe(unsub), Ok(77));
    assert_eq!(engine.take_outgoing(), vec![0xa2, 6, 0, 77, 0, 0, 1, b't']);
    match &engine.handle_incoming(&[0xb0, 4, 0, 77, 0, 0x11], engine.elapsed_millis())[..] {
        [MqttEvent::Unsubscribed(r)] => assert!(r.is_success()),
        other => panic!("{other:?}"),
    }
}

#[test]
fn keep_alive_pings_then_asks_for_reconnect() {
    let mut engine = connected_engine(4);
    let start = engine.elapsed_millis();
    let events = engine.handle_tick(start + 60_000);
    assert!(events.is_empty());
    assert_eq!(engine.take_outgoing(), vec![0xc0, 0]);
    assert_eq!(engine.next_tick_at(), Some(start + 120_000));
    let events = engine.handle_tick(start + 130_000);
    assert!(matches!(&events[..], [MqttEvent::ReconnectNeeded]));
    assert!(!engine.is_connected());
    assert_eq!(engine.next_tick_at(), None);
}

#[test]
fn malformed_input_is_reported() {
    let mut engine = connected_engine(4);
    let events = engine.handle_incoming(&[0xd0, 0, 0x00, 0], engine.elapsed_millis());
    assert!(matches!(&events[..], [MqttEvent::PingResponse(_), MqttEvent::Error(MqttClientError::MalformedPacket)]));
}

#[test]
fn disconnect_only_when_connected() {
    let mut engine = MqttEngine::new(MqttClientOptions::default());
    engine.disconnect();
    assert!(engine.take_outgoing().is_empty());
    let mut engine = connected_engine(5);
    engine.disconnect();
    assert_eq!(engine.take_outgoing(), vec![0xe0, 0]);
    assert!(!engine.is_connected());
}

#[test]
fn server_disconnect_in_mqtt5() {
    let mut engine = connected_engine(5);
    let events = engine.handle_incoming(&[0xe0, 1, 0x8B], engine.elapsed_millis());
    assert!(matches!(&events[..], [MqttEvent::Disconnected(Some(0x8B))]));
    assert!(!engine.is_connected());
}

#[test]
fn auth_only_in_mqtt5() {
    let mut engine = connected_engine(4);
    engine.auth(0x18, vec![]);
    assert!(engine.take_outgoing().is_empty());
    let mut engine = connected_engine(5);
    engine.auth(0x18, vec![]);
    assert_eq!(engine.take_outgoing(), vec![0xf0, 1, 0x18]);
}

#[test]
fn no_io_client_drives_the_engine() {
    let mut client = NoIoMqttClient::new(MqttClientOptions::default());
    client.connect();
    assert_eq!(client.take_outgoing(), connect_v5_bytes());
    client.handle_incoming(&[0x20, 3, 0, 0, 0], client.elapsed_millis());
    assert!(client.is_connected());
    client.ping();
    assert_eq!(client.take_outgoing(), vec![0xc0, 0]);
    assert!(matches!(&client.handle_incoming(&[0xd0, 0], client.elapsed_millis())[..], [MqttEvent::PingResponse(_)]));
    client.handle_connection_lost();
    assert!(!client.is_connected());
    assert_eq!(client.options().client_id, "mqtt_client");
    assert!(client.take_events().is_empty());
    assert!(client.handle_tick(client.elapsed_millis()).is_empty());
}

#[test]
fn received_bytes_keep_the_connection_alive() {
    let mut engine = connected_engine(4);
    let start = engine.elapsed_millis();
    assert!(engine.handle_tick(start + 60_000).is_empty());
    let _ = engine.take_outgoing();
    let events = engine.handle_incoming(&[0xd0, 0], start + 100_000);
    assert!(matches!(&events[..], [MqttEvent::PingResponse(_)]));
    let events = engine.handle_tick(start + 130_000);
    assert!(!events.iter().any(|e| matches!(e, MqttEvent::ReconnectNeeded)));
    assert!(engine.is_connected());
    let events = engine.handle_tick(start + 220_000);
    assert!(matches!(&events[..], [MqttEvent::ReconnectNeeded]));
}

#[test]
fn a_frame_split_across_reads_is_acted_on_once_complete() {
    let mut engine = connected_engine(4);
    assert!(engine.handle_incoming(&[0xd0], engine.elapsed_millis()).is_empty());
    let events = engine.handle_incoming(&[0], engine.elapsed_millis());
    assert!(matches!(&events[..], [MqttEvent::PingResponse(_)]));
}

#[test]
fn requests_without_a_session_are_protocol_violations() {
    let mut engine = MqttEngine::new(MqttClientOptions::builder().build());
    match engine.next_packet_id() {
        Err(MqttClientError::ProtocolViolation { message }) => {
            assert_eq!(message, "No session available for packet ID allocation")
        }
        other => panic!("unexpected {:?}", other),
    }
    assert!(matches!(engine.publish(publish("t", 1, 0)), Err(MqttClientError::ProtocolViolation { .. })));
}

#[test]
fn input_split_anywhere_acts_as_input_read_at_once() {
    let mut data: Vec<u8> = vec![0x20, 3, 0, 0, 0];
    data.extend_from_slice(&[0x32, 7, 0, 1, b't', 0, 9, 0, 7]);
    data.extend_from_slice(&[0x34, 7, 0, 1, b'u', 0, 10, 0, 8]);
    data.extend_from_slice(&[0xd0, 0]);
    let fresh = || {
        let mut engine = MqttEngine::new(MqttClientOptions::builder().mqtt_version(5).build());
        engine.connect();
        let _ = engine.take_outgoing();
        engine
    };
    let mut whole = fresh();
    let events = whole.handle_incoming(&data, whole.elapsed_millis());
    assert_eq!(events.len(), 4);
    let expected = format!("{:?}", events);
    let expected_out = whole.take_outgoing();
    assert_eq!(expected_out, vec![0x40, 2, 0, 9, 0x50, 2, 0, 10]);
    assert!(whole.is_connected());
    for k in 0..=data.len() {
        let mut split = fresh();
        let mut got = split.handle_incoming(&data[..k], split.elapsed_millis());
        got.extend(split.handle_incoming(&data[k..], split.elapsed_millis()));
        assert_eq!(format!("{:?}", got), expected, "cut at {k}");
        assert_eq!(split.take_outgoing(), expected_out, "cut at {k}");
        assert!(split.is_connected(), "cut at {k}");
    }
}

fn resumable_options() -> MqttClientOptions {
    MqttClientOptions::builder().client_id("c1").clean_start(false).mqtt_version(5).build()
}

fn saved_session() -> (MqttEngine, flowsdk::mqtt_client::engine::SessionSnapshot) {
    let mut engine = MqttEngine::new(resumable_options());
    engine.connect();
    let _ = engine.take_outgoing();
    engine.handle_incoming(&[0x20, 3, 0, 0, 0], engine.elapsed_millis());
    let sub = SubscribeCommand {
        packet_id: None,
        subscriptions: vec![TopicSubscription {
            topic_filter: "s".to_string(),
            qos: 1,
            no_local: false,
            retain_as_published: false,
            retain_handling: 0,
        }],
        properties: vec![],
    };
    assert_eq!(engine.subscribe(sub), Ok(1));
    let _ = engine.take_outgoing();
    engine.handle_connection_lost();
    assert_eq!(engine.publish(publish("t", 1, 0)), Ok(Some(2)));
    assert_eq!(engine.publish(publish("u", 0, 5)), Ok(None));
    let snapshot = engine.snapshot_session().expect("session is saved");
    (engine, snapshot)
}

#[test]
fn snapshot_lists_the_session() {
    let (_, snapshot) = saved_session();
    assert_eq!(snapshot.version, flowsdk::mqtt_client::engine::SESSION_STATE_VERSION);
    assert_eq!(snapshot.client_id, "c1");
    assert_eq!(snapshot.peer, "localhost:1883");
    assert_eq!(snapshot.mqtt_version, 5);
    assert_eq!(snapshot.packet_id_counter, 3);
    assert_eq!(snapshot.queued.len(), 2);
    assert_eq!(snapshot.queued[0].0, 5);
    assert_eq!(snapshot.queued[0].1.topic_name, "u");
    assert_eq!(snapshot.queued[1].1.topic_name, "t");
    assert_eq!(snapshot.queued[1].1.packet_id, Some(2));
    assert_eq!(snapshot.outstanding_publishes, vec![2]);
    assert_eq!(snapshot.outstanding_subscribes, vec![(1, vec!["s".to_string()])]);
    assert!(snapshot.outstanding_unsubscribes.is_empty());
}

#[test]
fn snapshot_needs_session_tracking_and_a_client_id() {
    let sessionless = MqttEngine::new(MqttClientOptions::builder().sessionless(true).build());
    assert!(matches!(sessionless.snapshot_session(), Err(MqttClientError::InvalidConfiguration { .. })));
    let anonymous = MqttEngine::new(MqttClientOptions::builder().client_id("").build());
    assert!(matches!(anonymous.snapshot_session(), Err(MqttClientError::InvalidConfiguration { .. })));
    let fresh = MqttEngine::new(resumable_options()).snapshot_session().unwrap();
    assert_eq!(fresh.packet_id_counter, 0);
}

#[test]
fn restored_session_resumes_where_it_stopped() {
    let (_, snapshot) = saved_session();
    let mut engine = MqttEngine::new(resumable_options());
    assert_eq!(engine.restore_session_state(snapshot.clone()), Ok(()));
    assert_eq!(engine.snapshot_session(), Ok(snapshot));
    assert_eq!(engine.next_packet_id(), Ok(3));
    assert!(!engine.is_connected());
}

#[test]
fn restore_refuses_what_it_cannot_take_up() {
    let (used, snapshot) = saved_session();
    let mut used = used;
    assert!(matches!(used.restore_session_state(snapshot.clone()), Err(MqttClientError::InvalidState { .. })));
    let refused = |options: MqttClientOptions, saved: flowsdk::mqtt_client::engine::SessionSnapshot| {
        let mut engine = MqttEngine::new(options);
        let before = engine.snapshot_session();
        let r = engine.restore_session_state(saved);
        assert!(matches!(r, Err(MqttClientError::InvalidConfiguration { .. })), "{r:?}");
        assert_eq!(engine.snapshot_session(), before);
    };
    let mut wrong_format = snapshot.clone();
    wrong_format.version = 99;
    refused(resumable_options(), wrong_format);
    refused(MqttClientOptions::builder().client_id("c1").clean_start(true).build(), snapshot.clone());
    refused(MqttClientOptions::builder().client_id("c2").clean_start(false).build(), snapshot.clone());
    refused(MqttClientOptions::builder().client_id("c1").clean_start(false).mqtt_version(4).build(), snapshot.clone());
    let mut zero = snapshot.clone();
    zero.outstanding_publishes = vec![0];
    refused(resumable_options(), zero);
    let mut repeated = snapshot.clone();
    repeated.outstanding_publishes = vec![1];
    refused(resumable_options(), repeated);
    let mut wildcard = snapshot.clone();
    wildcard.queued[1].1.topic_name = "a/#".to_string();
    refused(resumable_options(), wildcard);
    let mut qos0_with_id = snapshot.clone();
    qos0_with_id.queued[0].1.packet_id = Some(9);
    refused(resumable_options(), qos0_with_id);
    let mut twice = snapshot;
    twice.queued[0].1 = twice.queued[1].1.clone();
    refused(resumable_options(), twice);
}

#[test]
fn input_cut_short_or_malformed_splits_like_input_read_at_once() {
    let fresh = || {
        let mut engine = MqttEngine::new(MqttClientOptions::builder().mqtt_version(5).build());
        engine.connect();
        let _ = engine.take_outgoing();
        engine
    };
    let cut_short: Vec<u8> = vec![0x20, 3, 0, 0, 0, 0x32, 7, 0, 1, b't', 0, 9, 0, 7, 0xd0];
    let malformed: Vec<u8> = vec![0x20, 3, 0, 0, 0, 0x00, 0x00];
    for data in [cut_short, malformed] {
        let mut whole = fresh();
        let expected = format!("{:?}", whole.handle_incoming(&data, whole.elapsed_millis()));
        let expected_out = whole.take_outgoing();
        let expected_next = format!("{:?}", whole.handle_incoming(&[0], whole.elapsed_millis()));
        for k in 0..=data.len() {
            let mut split = fresh();
            let first = split.handle_incoming(&data[..k], split.elapsed_millis());
            let second = split.handle_incoming(&data[k..], split.elapsed_millis());
            if matches!(first.last(), Some(MqttEvent::Error(MqttClientError::MalformedPacket))) {
                assert_eq!(format!("{:?}", first), expected, "cut at {k}");
                assert!(matches!(&second[..], [MqttEvent::Error(MqttClientError::MalformedPacket)]), "cut at {k}");
            } else {
                let mut got = first;
                got.extend(second);
                assert_eq!(format!("{:?}", got), expected, "cut at {k}");
            }
            assert_eq!(split.take_outgoing(), expected_out, "cut at {k}");
            assert_eq!(format!("{:?}", split.handle_incoming(&[0], split.elapsed_millis())), expected_next, "cut at {k}");
        }
    }
}
