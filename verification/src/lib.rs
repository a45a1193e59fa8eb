//! A sans-I/O MQTT 3.1.1 / 5.0 client library: packet codec, protocol engine,
//! client options, operation results, protobuf property mapping, and the
//! bookkeeping used by the io_uring benchmark driver.

pub mod bench_stats;
pub mod clock;
pub mod codec;
pub mod grpc;
pub mod grpc_packets;
pub mod keyed;
pub mod mqtt_client;
pub mod relay;
pub mod relay_sessions;
pub mod ring_ops;
pub mod stream_payload;
