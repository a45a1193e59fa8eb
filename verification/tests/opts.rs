use flowsdk::codec::packet::TopicSubscription;
use flowsdk::mqtt_client::opts::MqttClientOptions;

#[test]
fn test_default_values() {
    let options = MqttClientOptions::default();

    assert_eq!(options.peer, "localhost:1883");
    assert_eq!(options.client_id, "mqtt_client");
    assert!(options.clean_start);
    assert_eq!(options.keep_alive, 60);
    assert_eq!(options.username, None);
    assert_eq!(options.password, None);
    assert_eq!(options.will, None);
    assert!(!options.reconnect);
    assert!(!options.sessionless);
    assert!(options.auto_ack);
    assert_eq!(options.session_expiry_interval, None);
    assert_eq!(options.maximum_packet_size, None);
    assert_eq!(options.request_response_information, None);
    assert_eq!(options.request_problem_information, None);
}

#[test]
fn test_maximum_packet_size_default() {
    let options = MqttClientOptions::default();
    assert_eq!(options.maximum_packet_size, None);
}

#[test]
fn test_maximum_packet_size_builder() {
    let options = MqttClientOptions::builder().maximum_packet_size(1024).build();

    assert_eq!(options.maximum_packet_size, Some(1024));
}

#[test]
fn test_maximum_packet_size_min_value() {
    let options = MqttClientOptions::builder().maximum_packet_size(1).build();

    assert_eq!(options.maximum_packet_size, Some(1));
}

#[test]
fn test_maximum_packet_size_max_value() {
    let options = MqttClientOptions::builder().maximum_packet_size(268_435_455).build();

    assert_eq!(options.maximum_packet_size, Some(268_435_455));
}

#[test]
fn test_no_maximum_packet_size() {
    let options = MqttClientOptions::builder()
        .maximum_packet_size(1024)
        .no_maximum_packet_size()
        .build();

    assert_eq!(options.maximum_packet_size, None);
}

#[test]
fn test_request_response_information_default() {
    let options = MqttClientOptions::default();
    assert_eq!(options.request_response_information, None);
}

#[test]
fn test_request_response_information_true() {
    let options = MqttClientOptions::builder().request_response_information(true).build();

    assert_eq!(options.request_response_information, Some(true));
}

#[test]
fn test_request_response_information_false() {
    let options = MqttClientOptions::builder().request_response_information(false).build();

    assert_eq!(options.request_response_information, Some(false));
}

#[test]
fn test_request_problem_information_default() {
    let options = MqttClientOptions::default();
    assert_eq!(options.request_problem_information, None);
}

#[test]
fn test_request_problem_information_true() {
    let options = MqttClientOptions::builder().request_problem_information(true).build();

    assert_eq!(options.request_problem_information, Some(true));
}

#[test]
fn test_request_problem_information_false() {
    let options = MqttClientOptions::builder().request_problem_information(false).build();

    assert_eq!(options.request_problem_information, Some(false));
}

#[test]
fn test_all_mqtt_v5_properties() {
    let options = MqttClientOptions::builder()
        .session_expiry_interval(3600)
        .maximum_packet_size(65536)
        .request_response_information(true)
        .request_problem_information(true)
        .build();

    assert_eq!(options.session_expiry_interval, Some(3600));
    assert_eq!(options.maximum_packet_size, Some(65536));
    assert_eq!(options.request_response_information, Some(true));
    assert_eq!(options.request_problem_information, Some(true));
}

#[test]
fn test_builder_chaining() {
    let options = MqttClientOptions::builder()
        .peer("mqtt.example.com:8883")
        .client_id("test_client")
        .clean_start(false)
        .keep_alive(120)
        .username("user123")
        .password(b"secret".to_vec())
        .reconnect(true)
        .sessionless(true)
        .auto_ack(false)
        .session_expiry_interval(7200)
        .maximum_packet_size(1_048_576)
        .request_response_information(true)
        .request_problem_information(false)
        .build();

    assert_eq!(options.peer, "mqtt.example.com:8883");
    assert_eq!(options.client_id, "test_client");
    assert!(!options.clean_start);
    assert_eq!(options.keep_alive, 120);
    assert_eq!(options.username, Some("user123".to_string()));
    assert_eq!(options.password, Some(b"secret".to_vec()));
    assert!(options.reconnect);
    assert!(options.sessionless);
    assert!(!options.auto_ack);
    assert_eq!(options.session_expiry_interval, Some(7200));
    assert_eq!(options.maximum_packet_size, Some(1_048_576));
    assert_eq!(options.request_response_information, Some(true));
    assert_eq!(options.request_problem_information, Some(false));
}

#[test]
fn test_mqtt_v5_compliance_values() {
    let test_sizes = vec![1, 256, 1024, 65536, 1_048_576, 268_435_455];

    for size in test_sizes {
        let options = MqttClientOptions::builder().maximum_packet_size(size).build();

        assert_eq!(options.maximum_packet_size, Some(size));
    }
}

#[test]
fn subscription_topics_keep_their_order() {
    let topic = |name: &str| TopicSubscription {
        topic_filter: name.to_string(),
        qos: 1,
        no_local: false,
        retain_as_published: false,
        retain_handling: 0,
    };
    let options = MqttClientOptions::builder()
        .subscription_topics(vec![topic("a")])
        .add_subscription_topic(topic("b"))
        .mqtt_version(4)
        .build();
    let names: Vec<&str> = options.subscription_topics.iter().map(|t| t.topic_filter.as_str()).collect();
    assert_eq!(names, vec!["a", "b"]);
    assert_eq!(options.mqtt_version, 4);
}
