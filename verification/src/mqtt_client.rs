//! The MQTT client: its options, the results it reports, and the sans-I/O
//! protocol engine that drives a connection.

pub mod opts;
pub mod client;
pub mod session;
pub mod priority_queue;
pub mod commands;
pub mod error;
pub mod engine;
pub mod no_io_client;
pub mod async_client;
pub mod tokio_async_client;
pub mod tokio_worker;
pub mod transport;
