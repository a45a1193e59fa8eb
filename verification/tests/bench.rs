use flowsdk::bench_stats::{merge_latency_samples, BenchStats, ErrorKind};
use flowsdk::ring_ops::{
    cancel_target, cancel_user_data, decode_user_data, encode_user_data, pending_user_data, ShutdownCompletions,
    OP_CONNECT, OP_RECV, OP_SEND,
};
use std::time::Duration;

#[test]
fn records_error_breakdown() {
    let stats = BenchStats::new();
    for kind in [ErrorKind::Socket, ErrorKind::Connect, ErrorKind::Send, ErrorKind::Receive, ErrorKind::Mqtt] {
        stats.record_error(kind);
    }

    let snapshot = stats.snapshot();
    assert_eq!(snapshot.errors, 5);
    assert_eq!(snapshot.socket_errors, 1);
    assert_eq!(snapshot.connect_errors, 1);
    assert_eq!(snapshot.send_errors, 1);
    assert_eq!(snapshot.receive_errors, 1);
    assert_eq!(snapshot.mqtt_errors, 1);
}

#[test]
fn pending_user_data_contains_only_active_operations() {
    assert_eq!(
        pending_user_data(42, true, false, true).into_iter().collect::<Vec<_>>(),
        vec![encode_user_data(42, OP_CONNECT), encode_user_data(42, OP_RECV)]
    );
}

#[test]
fn cancellation_tag_round_trips_target() {
    let target = encode_user_data(123, OP_SEND);
    let tagged = cancel_user_data(target);

    assert_eq!(cancel_target(tagged), Some(target));
    assert_eq!(cancel_target(target), None);
}

#[test]
fn shutdown_waits_for_cancel_after_operation_completion() {
    let target = encode_user_data(123, OP_RECV);
    let cancel = cancel_user_data(target);
    let mut shutdown = ShutdownCompletions::new(&[target]);
    shutdown.cancellations.insert(cancel);

    shutdown.record(target, -libc::ECANCELED);
    assert!(!shutdown.is_empty());

    shutdown.record(cancel, 0);
    assert!(shutdown.is_empty());
}

#[test]
fn shutdown_waits_for_operation_after_cancel_completion() {
    let target = encode_user_data(456, OP_SEND);
    let cancel = cancel_user_data(target);
    let mut shutdown = ShutdownCompletions::new(&[target]);
    shutdown.cancellations.insert(cancel);

    shutdown.record(cancel, 0);
    assert!(!shutdown.is_empty());

    shutdown.record(target, -libc::ECANCELED);
    assert!(shutdown.is_empty());
}

#[test]
fn cancel_enoent_completes_missing_operation() {
    let target = encode_user_data(789, OP_CONNECT);
    let cancel = cancel_user_data(target);
    let mut shutdown = ShutdownCompletions::new(&[target]);
    shutdown.cancellations.insert(cancel);

    shutdown.record(cancel, -libc::ENOENT);

    assert!(shutdown.is_empty());
}

#[test]
fn user_data_round_trips_key_and_operation() {
    let data = encode_user_data(0xABCD, OP_RECV);
    assert_eq!(data, (2u64 << 48) | 0xABCD);
    assert_eq!(decode_user_data(data), (0xABCD, OP_RECV));
}

#[test]
fn merged_samples_keep_every_worker_sample() {
    let ms = |n: u64| Duration::from_millis(n).as_nanos() as u64;
    let merged = merge_latency_samples(vec![vec![ms(3), ms(1), ms(3)], vec![], vec![ms(2)]]);
    assert_eq!(merged, vec![ms(1), ms(2), ms(3), ms(3)]);
}
