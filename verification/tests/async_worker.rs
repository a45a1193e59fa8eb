use flowsdk::mqtt_client::async_client::{
    AsyncClientConfig, ClientCommand, ClientWorker, FollowUp, PendingSubscriptions, WorkerStep,
};

fn config() -> AsyncClientConfig {
    AsyncClientConfig {
        auto_reconnect: true,
        reconnect_delay_ms: 100,
        max_reconnect_delay_ms: 350,
        max_reconnect_attempts: 3,
        command_queue_size: 10,
        buffer_messages: true,
        max_buffer_size: 2,
    }
}

fn publish(topic: &str) -> ClientCommand {
    ClientCommand::Publish { topic: topic.to_string(), payload: vec![1], qos: 1, retain: false }
}

#[test]
fn pending_subscriptions_keep_one_entry_per_topic() {
    let mut p = PendingSubscriptions::new();
    p.insert("a".to_string(), 0);
    p.insert("b".to_string(), 1);
    p.insert("a".to_string(), 2);
    let mut all = p.to_vec();
    all.sort();
    assert_eq!(all, vec![("a".to_string(), 2), ("b".to_string(), 1)]);
    p.remove(&"a".to_string());
    p.remove(&"zzz".to_string());
    assert_eq!(p.to_vec(), vec![("b".to_string(), 1)]);
}

#[test]
fn while_disconnected_commands_are_held_or_dropped() {
    let mut w = ClientWorker::new(config());
    assert!(!w.is_connected());
    assert_eq!(
        w.handle_command(ClientCommand::Subscribe { topic: "s".to_string(), qos: 1 }),
        WorkerStep::Idle
    );
    assert_eq!(w.handle_command(publish("m1")), WorkerStep::Idle);
    assert_eq!(w.handle_command(publish("m2")), WorkerStep::Idle);
    assert_eq!(w.handle_command(publish("m3")), WorkerStep::Idle);
    assert_eq!(w.handle_command(ClientCommand::Ping), WorkerStep::Idle);
    assert_eq!(w.handle_command(ClientCommand::Disconnect), WorkerStep::Idle);
    assert_eq!(w.handle_command(ClientCommand::SetAutoReconnect { enabled: false }), WorkerStep::Idle);
    assert_eq!(w.handle_command(ClientCommand::Connect), WorkerStep::Connect);
    match w.connect_done(Some(true)) {
        FollowUp::Replay { messages, subscriptions } => {
            let topics: Vec<&str> = messages.iter().map(|m| m.0.as_str()).collect();
            assert_eq!(topics, vec!["m2", "m3"]);
            assert_eq!(subscriptions, vec![("s".to_string(), 1)]);
        }
        other => panic!("expected a replay, got {:?}", other),
    }
    assert!(w.is_connected());
    assert_eq!(w.handle_command(ClientCommand::Shutdown), WorkerStep::Disconnect { stop: true });
    w.disconnect_done();
    assert_eq!(w.handle_command(ClientCommand::Shutdown), WorkerStep::Stop);
}

#[test]
fn unsubscribing_while_disconnected_drops_pending_topics() {
    let mut w = ClientWorker::new(config());
    w.handle_command(ClientCommand::Subscribe { topic: "a".to_string(), qos: 0 });
    w.handle_command(ClientCommand::Subscribe { topic: "b".to_string(), qos: 0 });
    w.handle_command(ClientCommand::Unsubscribe { topics: vec!["a".to_string(), "c".to_string()] });
    match w.connect_done(Some(true)) {
        FollowUp::Replay { subscriptions, .. } => assert_eq!(subscriptions, vec![("b".to_string(), 0)]),
        other => panic!("expected a replay, got {:?}", other),
    }
}

#[test]
fn connected_commands_go_to_the_connection() {
    let mut w = ClientWorker::new(config());
    w.connect_done(Some(true));
    assert_eq!(
        w.handle_command(ClientCommand::Subscribe { topic: "t".to_string(), qos: 2 }),
        WorkerStep::Subscribe { topic: "t".to_string(), qos: 2 }
    );
    w.subscribe_done("t".to_string(), 2, None);
    w.subscribe_done("u".to_string(), 1, Some(false));
    assert_eq!(w.handle_command(ClientCommand::Ping), WorkerStep::Ping);
    assert_eq!(w.handle_command(ClientCommand::Disconnect), WorkerStep::Disconnect { stop: false });
    assert_eq!(
        w.handle_command(publish("p")),
        WorkerStep::Publish { topic: "p".to_string(), payload: vec![1], qos: 1, retain: false }
    );
    w.publish_failed("p".to_string(), vec![1], 1, false);
    assert_eq!(
        w.handle_command(ClientCommand::Unsubscribe { topics: vec!["x".to_string()] }),
        WorkerStep::Unsubscribe { topics: vec!["x".to_string()] }
    );
    w.unsubscribe_done(&vec!["x".to_string()], true);
    w.disconnect_done();
    match w.connect_done(Some(true)) {
        FollowUp::Replay { messages, subscriptions } => {
            assert_eq!(messages.len(), 1);
            assert_eq!(subscriptions, vec![("t".to_string(), 2)]);
        }
        other => panic!("expected a replay, got {:?}", other),
    }
    w.subscribe_done("t".to_string(), 2, Some(true));
    w.disconnect_done();
    match w.connect_done(Some(true)) {
        FollowUp::Replay { subscriptions, .. } => assert!(subscriptions.is_empty()),
        other => panic!("expected a replay, got {:?}", other),
    }
}

#[test]
fn failures_back_off_up_to_the_limit() {
    let mut w = ClientWorker::new(config());
    assert_eq!(w.connect_done(None), FollowUp::Reconnect { attempt: 1, delay_ms: 100 });
    assert_eq!(w.connect_done(None), FollowUp::Reconnect { attempt: 2, delay_ms: 200 });
    assert_eq!(w.connect_done(None), FollowUp::Reconnect { attempt: 3, delay_ms: 350 });
    assert_eq!(w.connect_done(None), FollowUp::Nothing);
    assert_eq!(w.connect_done(Some(false)), FollowUp::Nothing);
    assert!(!w.is_connected());
    assert_eq!(w.connection_lost(), (false, FollowUp::Nothing));
    w.connect_done(Some(true));
    assert_eq!(w.connection_lost(), (true, FollowUp::Reconnect { attempt: 1, delay_ms: 100 }));
    let mut quiet = ClientWorker::new(AsyncClientConfig { auto_reconnect: false, ..config() });
    assert_eq!(quiet.connect_done(None), FollowUp::Nothing);
    quiet.connect_done(Some(true));
    assert_eq!(quiet.connection_lost(), (true, FollowUp::Nothing));
}
