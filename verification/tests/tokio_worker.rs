use flowsdk::mqtt_client::client::{ConnectionResult, PingResult, PublishResult, SubscribeResult, UnsubscribeResult};
use flowsdk::mqtt_client::engine::MqttEvent;
use flowsdk::mqtt_client::error::MqttClientError;
use flowsdk::mqtt_client::tokio_worker::{
    begin_disconnect, effective_priority, fail_all, ping_gate, publish_gate, register_connect, register_ping,
    register_publish, register_subscribe, register_unsubscribe, set_auto_reconnect_step, start_connect,
    worker_connection_lost, worker_event_step, Completion, ConnState, Follow, Waiters,
};

fn accepted() -> ConnectionResult {
    ConnectionResult { reason_code: 0, session_present: false, properties: Some(vec![]) }
}

fn lost() -> MqttClientError {
    MqttClientError::ConnectionLost { reason: "MQTT transport closed".to_string() }
}

#[test]
fn connack_completes_every_connect_waiter() {
    let mut w = Waiters::new();
    let mut state = ConnState::Disconnected;
    let mut stopped = true;
    assert!(register_connect(&mut w, &state, 1).is_none());
    assert!(register_connect(&mut w, &state, 2).is_none());
    assert!(start_connect(&mut state, &mut stopped));
    assert!(!stopped);
    assert_eq!(state, ConnState::Connecting);
    assert!(!start_connect(&mut state, &mut stopped));
    let step = worker_event_step(&mut w, &mut state, MqttEvent::Connected(accepted()), true, false, true);
    assert_eq!(
        step.completions,
        vec![(1, Completion::Connected(accepted())), (2, Completion::Connected(accepted()))]
    );
    assert_eq!(step.follow, Follow::Nothing);
    assert_eq!(state, ConnState::Connected(accepted()));
    assert_eq!(register_connect(&mut w, &state, 3), Some((3, Completion::Connected(accepted()))));
    let refused = ConnectionResult { reason_code: 0x87, session_present: false, properties: None };
    let step = worker_event_step(&mut w, &mut state, MqttEvent::Connected(refused), true, false, true);
    assert!(step.completions.is_empty());
    assert_eq!(step.follow, Follow::Lost { reason: Some(0x87) });
}

#[test]
fn acknowledgements_complete_their_own_waiter_once() {
    let mut w = Waiters::new();
    let mut state = ConnState::Connected(accepted());
    assert!(register_publish(&mut w, 10, Ok(Some(5))).is_none());
    assert!(register_subscribe(&mut w, 11, Ok(6)).is_none());
    assert!(register_unsubscribe(&mut w, 12, Ok(7)).is_none());
    assert_eq!(
        register_publish(&mut w, 13, Ok(None)),
        Some((13, Completion::Published(PublishResult { packet_id: None, reason_code: None, properties: None, qos: 0 })))
    );
    assert_eq!(
        register_subscribe(&mut w, 14, Err(MqttClientError::NotConnected)),
        Some((14, Completion::Failed(MqttClientError::NotConnected)))
    );
    let published = PublishResult { packet_id: Some(5), reason_code: Some(0), properties: Some(vec![]), qos: 1 };
    let step = worker_event_step(&mut w, &mut state, MqttEvent::Published(published.clone()), true, false, true);
    assert_eq!(step.completions, vec![(10, Completion::Published(published.clone()))]);
    let step = worker_event_step(&mut w, &mut state, MqttEvent::Published(published), true, false, true);
    assert!(step.completions.is_empty());
    let sub = SubscribeResult { packet_id: 6, reason_codes: vec![1], properties: vec![] };
    let step = worker_event_step(&mut w, &mut state, MqttEvent::Subscribed(sub.clone()), true, false, true);
    assert_eq!(step.completions, vec![(11, Completion::Subscribed(sub))]);
    let unsub = UnsubscribeResult { packet_id: 7, reason_codes: vec![0], properties: vec![] };
    let step = worker_event_step(&mut w, &mut state, MqttEvent::Unsubscribed(unsub.clone()), true, false, true);
    assert_eq!(step.completions, vec![(12, Completion::Unsubscribed(unsub))]);
}

#[test]
fn one_pingresp_answers_every_ping_waiter() {
    let mut w = Waiters::new();
    let mut state = ConnState::Connected(accepted());
    assert!(w.needs_ping());
    assert!(register_ping(&mut w, 1, ping_gate(true)).is_none());
    assert!(!w.needs_ping());
    assert!(register_ping(&mut w, 2, Ok(())).is_none());
    assert_eq!(
        register_ping(&mut Waiters::new(), 3, ping_gate(false)),
        Some((3, Completion::Failed(MqttClientError::NotConnected)))
    );
    let step = worker_event_step(&mut w, &mut state, MqttEvent::PingResponse(PingResult { success: true }), true, false, true);
    assert_eq!(
        step.completions,
        vec![(1, Completion::Pinged(PingResult { success: true })), (2, Completion::Pinged(PingResult { success: true }))]
    );
    assert!(w.needs_ping());
}

#[test]
fn losing_the_connection_fails_waiters_as_the_retry_policy_says() {
    let mut w = Waiters::new();
    let mut state = ConnState::Connected(accepted());
    register_ping(&mut w, 1, Ok(()));
    register_publish(&mut w, 2, Ok(Some(9)));
    let (e, cs) = worker_connection_lost(&mut w, &mut state, true, false, true).unwrap();
    assert_eq!(e, lost());
    assert_eq!(cs, vec![(1, Completion::Failed(lost()))]);
    assert_eq!(state, ConnState::Disconnected);
    assert!(worker_connection_lost(&mut w, &mut state, true, false, true).is_none());
    state = ConnState::Connecting;
    let (_, cs) = worker_connection_lost(&mut w, &mut state, false, false, true).unwrap();
    assert_eq!(cs, vec![(2, Completion::Failed(lost()))]);
}

#[test]
fn errors_fail_connect_waiters_only_while_connecting() {
    let mut w = Waiters::new();
    let mut state = ConnState::Connecting;
    register_connect(&mut w, &state, 4);
    let step = worker_event_step(&mut w, &mut state, MqttEvent::Error(MqttClientError::MalformedPacket), true, false, true);
    assert_eq!(step.completions, vec![(4, Completion::Failed(MqttClientError::MalformedPacket))]);
    let mut connected = ConnState::Connected(accepted());
    register_connect(&mut w, &ConnState::Connecting, 5);
    let step = worker_event_step(&mut w, &mut connected, MqttEvent::Error(MqttClientError::MalformedPacket), true, false, true);
    assert!(step.completions.is_empty());
}

#[test]
fn reconnect_needed_follows_the_transport_and_the_policy() {
    let mut w = Waiters::new();
    let mut state = ConnState::Disconnected;
    let step = worker_event_step(&mut w, &mut state, MqttEvent::ReconnectNeeded, true, false, false);
    assert_eq!(step.follow, Follow::OpenTransport);
    assert_eq!(state, ConnState::Connecting);
    let step = worker_event_step(&mut w, &mut state, MqttEvent::ReconnectNeeded, true, false, true);
    assert_eq!(step.follow, Follow::Lost { reason: None });
    let step = worker_event_step(&mut w, &mut state, MqttEvent::ReconnectNeeded, false, false, true);
    assert_eq!(step.follow, Follow::Nothing);
    let step = worker_event_step(&mut w, &mut state, MqttEvent::Disconnected(Some(4)), true, false, true);
    assert_eq!(step.follow, Follow::Lost { reason: Some(4) });
}

#[test]
fn disconnect_and_reconnect_switch_cancel_waiters() {
    let mut w = Waiters::new();
    let mut state = ConnState::Connected(accepted());
    let mut stopped = false;
    register_connect(&mut w, &ConnState::Connecting, 1);
    register_subscribe(&mut w, 2, Ok(3));
    let (active, e, cs) = begin_disconnect(&mut w, &mut state, &mut stopped);
    assert!(active);
    assert!(stopped);
    assert_eq!(state, ConnState::Disconnecting);
    assert_eq!(e, MqttClientError::OperationCancelled { operation: "disconnect".to_string() });
    assert_eq!(cs, vec![(1, Completion::Failed(e.clone())), (2, Completion::Failed(e))]);
    let mut w = Waiters::new();
    register_ping(&mut w, 7, Ok(()));
    let (cs, schedule) = set_auto_reconnect_step(&mut w, &ConnState::Disconnected, false, false);
    assert_eq!(cs, vec![(7, Completion::Failed(MqttClientError::NotConnected))]);
    assert!(!schedule);
    let (cs, schedule) = set_auto_reconnect_step(&mut w, &ConnState::Disconnected, true, false);
    assert!(cs.is_empty() && schedule);
    register_publish(&mut w, 8, Ok(Some(1)));
    assert_eq!(fail_all(&mut w, &MqttClientError::NotConnected), vec![(8, Completion::Failed(MqttClientError::NotConnected))]);
}

#[test]
fn publications_are_gated_while_disconnected() {
    assert_eq!(publish_gate(true, false, true, 5, 0), Ok(()));
    assert_eq!(publish_gate(false, false, false, 0, 10), Err(MqttClientError::NotConnected));
    assert_eq!(publish_gate(false, true, true, 0, 10), Err(MqttClientError::NotConnected));
    assert_eq!(
        publish_gate(false, true, false, 10, 10),
        Err(MqttClientError::BufferFull { buffer_type: "offline publish queue".to_string(), capacity: 10 })
    );
    assert_eq!(publish_gate(false, true, false, 9, 10), Ok(()));
    assert_eq!(effective_priority(7, true), 7);
    assert_eq!(effective_priority(7, false), 128);
}
