use flowsdk::codec::stream::ParseError;
use flowsdk::mqtt_client::tokio_async_client::{TokioAsyncClientConfig, TokioMqttEvent, TokioMqttEventHandler};

#[test]
fn test_receive_maximum_default() {
    let config = TokioAsyncClientConfig::default();
    assert_eq!(config.receive_maximum, None);
}

#[test]
fn test_receive_maximum_builder() {
    let config = TokioAsyncClientConfig::builder().receive_maximum(100).build();

    assert_eq!(config.receive_maximum, Some(100));
}

#[test]
fn test_receive_maximum_min_value() {
    let config = TokioAsyncClientConfig::builder().receive_maximum(1).build();

    assert_eq!(config.receive_maximum, Some(1));
}

#[test]
fn test_receive_maximum_max_value() {
    let config = TokioAsyncClientConfig::builder().receive_maximum(65535).build();

    assert_eq!(config.receive_maximum, Some(65535));
}

#[test]
fn test_no_receive_maximum() {
    let config = TokioAsyncClientConfig::builder().receive_maximum(100).no_receive_maximum().build();

    assert_eq!(config.receive_maximum, None);
}

#[test]
fn test_receive_maximum_chain() {
    let config = TokioAsyncClientConfig::builder()
        .auto_reconnect(false)
        .receive_maximum(50)
        .tcp_nodelay(true)
        .connect_timeout_ms(5000)
        .build();

    assert_eq!(config.receive_maximum, Some(50));
    assert!(!config.auto_reconnect);
    assert!(config.tcp_nodelay);
    assert_eq!(config.connect_timeout_ms, Some(5000));
}

#[test]
fn test_config_builder_clone() {
    let builder = TokioAsyncClientConfig::builder().receive_maximum(200).auto_reconnect(false);

    let builder_clone = builder.clone();

    let config1 = builder.build();
    let config2 = builder_clone.build();

    assert_eq!(config1.receive_maximum, config2.receive_maximum);
    assert_eq!(config1.auto_reconnect, config2.auto_reconnect);
}

#[test]
fn test_receive_maximum_mqtt_v5_compliance() {
    let test_values = vec![1, 10, 100, 1000, 10000, 32767, 65535];

    for value in test_values {
        let config = TokioAsyncClientConfig::builder().receive_maximum(value).build();

        assert_eq!(config.receive_maximum, Some(value));
    }
}

#[test]
fn test_config_default_values() {
    let config = TokioAsyncClientConfig::default();

    assert_eq!(config.receive_maximum, None);
    assert!(config.auto_reconnect);
    assert!(config.tcp_nodelay);
}

#[test]
fn test_topic_alias_maximum_default() {
    let config = TokioAsyncClientConfig::default();
    assert_eq!(config.topic_alias_maximum, None);
}

#[test]
fn test_topic_alias_maximum_zero() {
    let config = TokioAsyncClientConfig::builder().topic_alias_maximum(0).build();

    assert_eq!(config.topic_alias_maximum, Some(0));
}

#[test]
fn test_topic_alias_maximum_builder() {
    let config = TokioAsyncClientConfig::builder().topic_alias_maximum(10).build();

    assert_eq!(config.topic_alias_maximum, Some(10));
}

#[test]
fn test_topic_alias_maximum_max_value() {
    let config = TokioAsyncClientConfig::builder().topic_alias_maximum(65535).build();

    assert_eq!(config.topic_alias_maximum, Some(65535));
}

#[test]
fn test_no_topic_alias() {
    let config = TokioAsyncClientConfig::builder().topic_alias_maximum(100).no_topic_alias().build();

    assert_eq!(config.topic_alias_maximum, None);
}

#[test]
fn test_topic_alias_chain() {
    let config = TokioAsyncClientConfig::builder()
        .auto_reconnect(false)
        .topic_alias_maximum(50)
        .receive_maximum(100)
        .tcp_nodelay(true)
        .build();

    assert_eq!(config.topic_alias_maximum, Some(50));
    assert_eq!(config.receive_maximum, Some(100));
    assert!(!config.auto_reconnect);
    assert!(config.tcp_nodelay);
}

#[test]
fn test_topic_alias_mqtt_v5_compliance() {
    let test_values = vec![0, 1, 10, 100, 1000, 32767, 65535];

    for value in test_values {
        let config = TokioAsyncClientConfig::builder().topic_alias_maximum(value).build();

        assert_eq!(config.topic_alias_maximum, Some(value));
    }
}

#[test]
fn timeout_profiles_set_every_timeout() {
    let c = TokioAsyncClientConfig::builder().satellite_timeouts().build();
    assert_eq!(c.connect_timeout_ms, Some(120000));
    assert_eq!(c.ping_timeout_ms, Some(30000));
    assert_eq!(c.default_operation_timeout_ms, 120000);
    let c = TokioAsyncClientConfig::builder().local_network_timeouts().no_timeouts().build();
    assert_eq!(c.connect_timeout_ms, None);
    assert_eq!(c.subscribe_timeout_ms, None);
    assert_eq!(c.default_operation_timeout_ms, 5000);
    let c = TokioAsyncClientConfig::builder().no_timeouts().default_timeouts().build();
    assert_eq!(c.publish_ack_timeout_ms, Some(10000));
    assert_eq!(c.unsubscribe_timeout_ms, Some(10000));
}

struct Quiet;

impl TokioMqttEventHandler for Quiet {}

#[test]
fn tokio_events_carry_their_data_and_default_handlers_do_nothing() {
    let event = TokioMqttEvent::ParseError { raw_data: vec![0x00, 0x00], error: ParseError, recoverable: false };
    match event {
        TokioMqttEvent::ParseError { raw_data, recoverable, .. } => {
            assert_eq!(raw_data, vec![0, 0]);
            assert!(!recoverable);
        }
        other => panic!("unexpected {:?}", other),
    }
    let mut h = Quiet;
    h.on_disconnected(Some(0));
    h.on_pubrel_received(7);
    h.on_parse_error(&[1, 2], &ParseError, true);
    h.on_reconnect_attempt(3);
    h.on_connection_lost();
}
