use flowsdk::mqtt_client::async_client::{buffer_message, next_reconnect_attempt, reconnect_delay_ms, AsyncClientConfig};
use flowsdk::mqtt_client::client::{ConnectionResult, PublishResult, SubscribeResult, UnsubscribeResult};
use flowsdk::mqtt_client::priority_queue::PriorityQueue;
use flowsdk::mqtt_client::session::ClientSession;

#[test]
fn connection_reason_descriptions() {
    let r = |code: u8| ConnectionResult { reason_code: code, session_present: false, properties: None };
    assert_eq!(r(0).reason_description(), "Success");
    assert_eq!(r(7).reason_description(), "Bad User Name or Password");
    assert_eq!(r(34).reason_description(), "Wildcard Subscriptions not supported");
    assert_eq!(r(35).reason_description(), "Unknown reason code");
    assert!(r(0).is_success() && !r(0).is_failure());
    assert!(r(5).is_failure() && !r(5).is_success());
}

#[test]
fn subscribe_and_unsubscribe_success() {
    let s = |codes: Vec<u8>| SubscribeResult { packet_id: 1, reason_codes: codes, properties: vec![] };
    assert!(s(vec![0, 1, 2]).is_success());
    assert!(!s(vec![0, 0x80]).is_success());
    assert_eq!(s(vec![0, 0x80, 2, 0x87]).successful_subscriptions(), 2);
    let u = |codes: Vec<u8>| UnsubscribeResult { packet_id: 1, reason_codes: codes, properties: vec![] };
    assert!(u(vec![0, 17]).is_success());
    assert!(!u(vec![0, 0x80]).is_success());
    assert!(u(vec![]).is_success());
}

#[test]
fn publish_success() {
    let p = |code: Option<u8>| PublishResult { packet_id: None, reason_code: code, properties: None, qos: 0 };
    assert!(p(None).is_success());
    assert!(p(Some(0)).is_success());
    assert!(!p(Some(0x10)).is_success());
}

#[test]
fn reconnect_backoff_doubles_up_to_the_limit() {
    let config = AsyncClientConfig::default();
    assert_eq!(reconnect_delay_ms(&config, 1), 1000);
    assert_eq!(reconnect_delay_ms(&config, 2), 2000);
    assert_eq!(reconnect_delay_ms(&config, 5), 16000);
    assert_eq!(reconnect_delay_ms(&config, 6), 30000);
    assert_eq!(reconnect_delay_ms(&config, 64), 30000);
    assert_eq!(reconnect_delay_ms(&config, 65), 30000);
    assert_eq!(reconnect_delay_ms(&config, u32::MAX), 30000);
    let no_delay = AsyncClientConfig { reconnect_delay_ms: 0, ..AsyncClientConfig::default() };
    assert_eq!(reconnect_delay_ms(&no_delay, 100), 0);
    assert_eq!(next_reconnect_attempt(&config, u32::MAX), Some(u32::MAX));
    assert_eq!(next_reconnect_attempt(&config, 41), Some(42));
    let limited = AsyncClientConfig { max_reconnect_attempts: 3, ..AsyncClientConfig::default() };
    assert_eq!(next_reconnect_attempt(&limited, 2), Some(3));
    assert_eq!(next_reconnect_attempt(&limited, 3), None);
}

#[test]
fn message_buffer_is_bounded_and_drops_the_oldest() {
    let mut buffer = Vec::new();
    assert!(buffer_message(&mut buffer, 2, "a", &[1], 1, false));
    assert!(buffer_message(&mut buffer, 2, "b", &[2], 0, true));
    assert!(buffer_message(&mut buffer, 2, "c", &[3], 2, false));
    assert_eq!(buffer, vec![("b".to_string(), vec![2], 0, true), ("c".to_string(), vec![3], 2, false)]);
    let mut none = Vec::new();
    assert!(!buffer_message(&mut none, 0, "a", &[1], 1, false));
    assert!(none.is_empty());
}

#[test]
fn priority_queue_orders_by_priority_then_arrival() {
    let mut q = PriorityQueue::new(3);
    assert!(q.enqueue(1, "a"));
    assert!(q.enqueue(3, "b"));
    assert!(q.enqueue(1, "c"));
    assert!(!q.enqueue(9, "d"));
    assert_eq!(q.len(), 3);
    assert_eq!(q.dequeue(), Some((3, "b")));
    assert_eq!(q.dequeue(), Some((1, "a")));
    assert_eq!(q.dequeue(), Some((1, "c")));
    assert_eq!(q.dequeue(), None);
    assert!(q.is_empty());
}

#[test]
fn packet_ids_wrap_around_skipping_zero() {
    let mut s = ClientSession::new();
    assert_eq!(s.next_packet_id(), 1);
    assert_eq!(s.next_packet_id(), 2);
    for _ in 3..=65535u32 {
        s.next_packet_id();
    }
    assert_eq!(s.next_packet_id(), 1);
}
