//! The events and callbacks of the tokio client, its configuration and the
//! configuration's builder.

use vstd::prelude::*;
use crate::codec::packet::MqttPublish;
use crate::codec::property::Property;
use crate::codec::stream::ParseError;
use super::client::{ConnectionResult, PingResult, PublishResult, SubscribeResult, UnsubscribeResult};
use super::error::MqttClientError;

verus! {

/// What the tokio client reports to its handler.
#[derive(Debug)]
pub enum TokioMqttEvent {
    Connected(ConnectionResult),
    /// The reason code, when the server gave one.
    Disconnected(Option<u8>),
    Published(PublishResult),
    Subscribed(SubscribeResult),
    Unsubscribed(UnsubscribeResult),
    MessageReceived(MqttPublish),
    PingResponse(PingResult),
    Error(MqttClientError),
    /// The TLS peer certificate, for the application to check.
    PeerCertReceived(Vec<u8>),
    /// The connection was lost; a reconnection follows if enabled.
    ConnectionLost,
    /// A reconnection attempt, by number, is starting.
    ReconnectAttempt(u32),
    /// Pending operations were dropped on a clean reconnect.
    PendingOperationsCleared,
    /// Bytes that could not be parsed.
    ParseError {
        /// The first bytes of what was received, for diagnosis.
        raw_data: Vec<u8>,
        error: ParseError,
        /// Whether the connection can go on after it.
        recoverable: bool,
    },
}

/// The callbacks through which the tokio client reports events; each does
/// nothing unless the application overrides it. The worker runs them in
/// turn, so a handler that waits for an acknowledgement hands that wait to
/// another task.
pub trait TokioMqttEventHandler: Send + Sync {
    fn on_connected(&mut self, result: &ConnectionResult) {
        let _ = result;
    }

    fn on_disconnected(&mut self, reason: Option<u8>) {
        let _ = reason;
    }

    /// A DISCONNECT from the server (MQTT 5), before `on_disconnected`.
    fn on_disconnect_received(&mut self, reason_code: u8, properties: &[Property]) {
        let _ = reason_code;
        let _ = properties;
    }

    /// An incoming QoS 2 exchange has reached PUBREL.
    fn on_pubrel_received(&mut self, packet_id: u16) {
        let _ = packet_id;
    }

    fn on_published(&mut self, result: &PublishResult) {
        let _ = result;
    }

    fn on_subscribed(&mut self, result: &SubscribeResult) {
        let _ = result;
    }

    fn on_unsubscribed(&mut self, result: &UnsubscribeResult) {
        let _ = result;
    }

    fn on_message_received(&mut self, publish: &MqttPublish) {
        let _ = publish;
    }

    fn on_ping_response(&mut self, result: &PingResult) {
        let _ = result;
    }

    fn on_error(&mut self, error: &MqttClientError) {
        let _ = error;
    }

    fn on_parse_error(&mut self, raw_data: &[u8], error: &ParseError, recoverable: bool) {
        let _ = raw_data;
        let _ = error;
        let _ = recoverable;
    }

    fn on_peer_cert_received(&mut self, cert: &[u8]) {
        let _ = cert;
    }

    fn on_connection_lost(&mut self) {
    }

    fn on_reconnect_attempt(&mut self, attempt: u32) {
        let _ = attempt;
    }

    fn on_pending_operations_cleared(&mut self) {
    }
}

/// How the tokio client behaves.
#[derive(Debug, Clone)]
pub struct TokioAsyncClientConfig {
    /// Reconnect automatically when the connection is lost.
    pub auto_reconnect: bool,
    /// The longest reconnect delay, in milliseconds.
    pub max_reconnect_delay_ms: u64,
    /// The most reconnect attempts; 0 means no limit.
    pub max_reconnect_attempts: u32,
    /// The capacity of the command queue.
    pub command_queue_size: usize,
    /// Hold messages published while disconnected.
    pub buffer_messages: bool,
    /// The most messages held.
    pub max_buffer_size: usize,
    /// Set TCP_NODELAY (no Nagle) on the socket.
    pub tcp_nodelay: bool,
    /// Timeout of a connection attempt in milliseconds; `None`: none.
    pub connect_timeout_ms: Option<u64>,
    /// Timeout of a subscription in milliseconds; `None`: none.
    pub subscribe_timeout_ms: Option<u64>,
    /// Timeout of a publication's acknowledgement in milliseconds; `None`: none.
    pub publish_ack_timeout_ms: Option<u64>,
    /// Timeout of an unsubscription in milliseconds; `None`: none.
    pub unsubscribe_timeout_ms: Option<u64>,
    /// Timeout of a ping in milliseconds; `None`: none.
    pub ping_timeout_ms: Option<u64>,
    /// Bound of transport writes, closes and local waits, in milliseconds.
    pub default_operation_timeout_ms: u64,
    /// Receive Maximum (MQTT 5): QoS 1 and 2 publications processed at once; `None`: the protocol default.
    pub receive_maximum: Option<u16>,
    /// Topic Alias Maximum (MQTT 5): aliases accepted from the server; `None`: not sent.
    pub topic_alias_maximum: Option<u16>,
    /// Order queued publications by priority.
    pub priority_queue_enabled: bool,
    /// The most publications the priority queue holds.
    pub priority_queue_limit: usize,
}

impl Default for TokioAsyncClientConfig {
    fn default() -> (r: Self)
        ensures
            r.auto_reconnect == true,
            r.max_reconnect_delay_ms == 30000,
            r.max_reconnect_attempts == 0,
            r.command_queue_size == 1000,
            r.buffer_messages == true,
            r.max_buffer_size == 1000,
            r.tcp_nodelay == true,
            r.connect_timeout_ms == Some(30000u64),
            r.subscribe_timeout_ms == Some(10000u64),
            r.publish_ack_timeout_ms == Some(10000u64),
            r.unsubscribe_timeout_ms == Some(10000u64),
            r.ping_timeout_ms == Some(5000u64),
            r.default_operation_timeout_ms == 30000,
            r.receive_maximum is None,
            r.topic_alias_maximum is None,
            r.priority_queue_enabled == true,
            r.priority_queue_limit == 1000,
    {
        TokioAsyncClientConfig {
            auto_reconnect: true,
            max_reconnect_delay_ms: 30000,
            max_reconnect_attempts: 0,
            command_queue_size: 1000,
            buffer_messages: true,
            max_buffer_size: 1000,
            tcp_nodelay: true,
            connect_timeout_ms: Some(30000),
            subscribe_timeout_ms: Some(10000),
            publish_ack_timeout_ms: Some(10000),
            unsubscribe_timeout_ms: Some(10000),
            ping_timeout_ms: Some(5000),
            default_operation_timeout_ms: 30000,
            receive_maximum: None,
            topic_alias_maximum: None,
            priority_queue_enabled: true,
            priority_queue_limit: 1000,
        }
    }
}

impl TokioAsyncClientConfig {
    /// A builder that starts from the default configuration.
    pub fn builder() -> (r: ConfigBuilder)
        ensures
            r@ == default_config(),
    {
        ConfigBuilder::new()
    }
}

/// The default configuration.
pub open spec fn default_config() -> TokioAsyncClientConfig {
    TokioAsyncClientConfig {
            auto_reconnect: true,
            max_reconnect_delay_ms: 30000,
            max_reconnect_attempts: 0,
            command_queue_size: 1000,
            buffer_messages: true,
            max_buffer_size: 1000,
            tcp_nodelay: true,
            connect_timeout_ms: Some(30000),
            subscribe_timeout_ms: Some(10000),
            publish_ack_timeout_ms: Some(10000),
            unsubscribe_timeout_ms: Some(10000),
            ping_timeout_ms: Some(5000),
            default_operation_timeout_ms: 30000,
            receive_maximum: None,
            topic_alias_maximum: None,
            priority_queue_enabled: true,
            priority_queue_limit: 1000,
    }
}

/// A builder of `TokioAsyncClientConfig`.
#[derive(Debug, Clone)]
pub struct ConfigBuilder {
    config: TokioAsyncClientConfig,
}

impl View for ConfigBuilder {
    type V = TokioAsyncClientConfig;

    closed spec fn view(&self) -> TokioAsyncClientConfig {
        self.config
    }
}

impl ConfigBuilder {
    /// A builder that starts from the default configuration.
    pub fn new() -> (r: Self)
        ensures
            r@ == default_config(),
    {
        ConfigBuilder { config: TokioAsyncClientConfig::default() }
    }

    /// The finished configuration.
    pub fn build(self) -> (r: TokioAsyncClientConfig)
        ensures
            r == self@,
    {
        self.config
    }

    /// Enables or disables automatic reconnection.
    pub fn auto_reconnect(self, enabled: bool) -> (r: Self)
        ensures
            r@ == (TokioAsyncClientConfig { auto_reconnect: enabled, ..self@ }),
    {
        let mut s = self;
        s.config.auto_reconnect = enabled;
        s
    }

    /// Sets the longest reconnect delay in milliseconds.
    pub fn max_reconnect_delay_ms(self, max_delay_ms: u64) -> (r: Self)
        ensures
            r@ == (TokioAsyncClientConfig { max_reconnect_delay_ms: max_delay_ms, ..self@ }),
    {
        let mut s = self;
        s.config.max_reconnect_delay_ms = max_delay_ms;
        s
    }

    /// Sets the most reconnect attempts (0: no limit).
    pub fn max_reconnect_attempts(self, max_attempts: u32) -> (r: Self)
        ensures
            r@ == (TokioAsyncClientConfig { max_reconnect_attempts: max_attempts, ..self@ }),
    {
        let mut s = self;
        s.config.max_reconnect_attempts = max_attempts;
        s
    }

    /// Enables or disables the priority queue.
    pub fn priority_queue_enabled(self, enabled: bool) -> (r: Self)
        ensures
            r@ == (TokioAsyncClientConfig { priority_queue_enabled: enabled, ..self@ }),
    {
        let mut s = self;
        s.config.priority_queue_enabled = enabled;
        s
    }

    /// Sets the priority queue's limit.
    pub fn priority_queue_limit(self, limit: usize) -> (r: Self)
        ensures
            r@ == (TokioAsyncClientConfig { priority_queue_limit: limit, ..self@ }),
    {
        let mut s = self;
        s.config.priority_queue_limit = limit;
        s
    }

    /// Sets the connection timeout in milliseconds.
    pub fn connect_timeout_ms(self, timeout_ms: u64) -> (r: Self)
        ensures
            r@ == (TokioAsyncClientConfig { connect_timeout_ms: Some(timeout_ms), ..self@ }),
    {
        let mut s = self;
        s.config.connect_timeout_ms = Some(timeout_ms);
        s
    }

    /// Waits for a connection without a timeout.
    pub fn no_connect_timeout(self) -> (r: Self)
        ensures
            r@ == (TokioAsyncClientConfig { connect_timeout_ms: None, ..self@ }),
    {
        let mut s = self;
        s.config.connect_timeout_ms = None;
        s
    }

    /// Sets the subscription timeout in milliseconds.
    pub fn subscribe_timeout_ms(self, timeout_ms: u64) -> (r: Self)
        ensures
            r@ == (TokioAsyncClientConfig { subscribe_timeout_ms: Some(timeout_ms), ..self@ }),
    {
        let mut s = self;
        s.config.subscribe_timeout_ms = Some(timeout_ms);
        s
    }

    /// Waits for a subscription without a timeout.
    pub fn no_subscribe_timeout(self) -> (r: Self)
        ensures
            r@ == (TokioAsyncClientConfig { subscribe_timeout_ms: None, ..self@ }),
    {
        let mut s = self;
        s.config.subscribe_timeout_ms = None;
        s
    }

    /// Sets the acknowledgement timeout in milliseconds.
    pub fn publish_ack_timeout_ms(self, timeout_ms: u64) -> (r: Self)
        ensures
            r@ == (TokioAsyncClientConfig { publish_ack_timeout_ms: Some(timeout_ms), ..self@ }),
    {
        let mut s = self;
        s.config.publish_ack_timeout_ms = Some(timeout_ms);
        s
    }

    /// Waits for acknowledgements without a timeout.
    pub fn no_publish_ack_timeout(self) -> (r: Self)
        ensures
            r@ == (TokioAsyncClientConfig { publish_ack_timeout_ms: None, ..self@ }),
    {
        let mut s = self;
        s.config.publish_ack_timeout_ms = None;
        s
    }

    /// Sets the unsubscription timeout in milliseconds.
    pub fn unsubscribe_timeout_ms(self, timeout_ms: u64) -> (r: Self)
        ensures
            r@ == (TokioAsyncClientConfig { unsubscribe_timeout_ms: Some(timeout_ms), ..self@ }),
    {
        let mut s = self;
        s.config.unsubscribe_timeout_ms = Some(timeout_ms);
        s
    }

    /// Waits for an unsubscription without a timeout.
    pub fn no_unsubscribe_timeout(self) -> (r: Self)
        ensures
            r@ == (TokioAsyncClientConfig { unsubscribe_timeout_ms: None, ..self@ }),
    {
        let mut s = self;
        s.config.unsubscribe_timeout_ms = None;
        s
    }

    /// Sets the ping timeout in milliseconds.
    pub fn ping_timeout_ms(self, timeout_ms: u64) -> (r: Self)
        ensures
            r@ == (TokioAsyncClientConfig { ping_timeout_ms: Some(timeout_ms), ..self@ }),
    {
        let mut s = self;
        s.config.ping_timeout_ms = Some(timeout_ms);
        s
    }

    /// Waits for a ping response without a timeout.
    pub fn no_ping_timeout(self) -> (r: Self)
        ensures
            r@ == (TokioAsyncClientConfig { ping_timeout_ms: None, ..self@ }),
    {
        let mut s = self;
        s.config.ping_timeout_ms = None;
        s
    }

    /// Sets the bound of transport I/O and local waits in milliseconds.
    pub fn default_operation_timeout_ms(self, timeout_ms: u64) -> (r: Self)
        ensures
            r@ == (TokioAsyncClientConfig { default_operation_timeout_ms: timeout_ms, ..self@ }),
    {
        let mut s = self;
        s.config.default_operation_timeout_ms = timeout_ms;
        s
    }

    /// Sets the capacity of the command queue.
    pub fn command_queue_size(self, size: usize) -> (r: Self)
        ensures
            r@ == (TokioAsyncClientConfig { command_queue_size: size, ..self@ }),
    {
        let mut s = self;
        s.config.command_queue_size = size;
        s
    }

    /// Enables or disables holding messages while disconnected.
    pub fn buffer_messages(self, enabled: bool) -> (r: Self)
        ensures
            r@ == (TokioAsyncClientConfig { buffer_messages: enabled, ..self@ }),
    {
        let mut s = self;
        s.config.buffer_messages = enabled;
        s
    }

    /// Sets the most messages held.
    pub fn max_buffer_size(self, size: usize) -> (r: Self)
        ensures
            r@ == (TokioAsyncClientConfig { max_buffer_size: size, ..self@ }),
    {
        let mut s = self;
        s.config.max_buffer_size = size;
        s
    }

    /// Enables or disables TCP_NODELAY.
    pub fn tcp_nodelay(self, enabled: bool) -> (r: Self)
        ensures
            r@ == (TokioAsyncClientConfig { tcp_nodelay: enabled, ..self@ }),
    {
        let mut s = self;
        s.config.tcp_nodelay = enabled;
        s
    }

    /// Clears Receive Maximum (the protocol default, 65535, applies).
    pub fn no_receive_maximum(self) -> (r: Self)
        ensures
            r@ == (TokioAsyncClientConfig { receive_maximum: None, ..self@ }),
    {
        let mut s = self;
        s.config.receive_maximum = None;
        s
    }

    /// Sets Topic Alias Maximum (0: no aliases).
    pub fn topic_alias_maximum(self, max: u16) -> (r: Self)
        ensures
            r@ == (TokioAsyncClientConfig { topic_alias_maximum: Some(max), ..self@ }),
    {
        let mut s = self;
        s.config.topic_alias_maximum = Some(max);
        s
    }

    /// Clears Topic Alias Maximum.
    pub fn no_topic_alias(self) -> (r: Self)
        ensures
            r@ == (TokioAsyncClientConfig { topic_alias_maximum: None, ..self@ }),
    {
        let mut s = self;
        s.config.topic_alias_maximum = None;
        s
    }

    /// Sets Receive Maximum (MQTT 5). 0 breaks the protocol and is not
    /// accepted.
    pub fn receive_maximum(self, max: u16) -> (r: Self)
        requires
            max > 0,
        ensures
            r@ == (TokioAsyncClientConfig { receive_maximum: Some(max), ..self@ }),
    {
        let mut s = self;
        s.config.receive_maximum = Some(max);
        s
    }

    /// Turns off the broker-response timeouts and the connection timeout; transport I/O stays bounded by the operation timeout.
    pub fn no_timeouts(self) -> (r: Self)
        ensures
            r@ == (TokioAsyncClientConfig { connect_timeout_ms: None, subscribe_timeout_ms: None, publish_ack_timeout_ms: None, unsubscribe_timeout_ms: None, ping_timeout_ms: None, ..self@ }),
    {
        let mut s = self;
        s.config.connect_timeout_ms = None;
        s.config.subscribe_timeout_ms = None;
        s.config.publish_ack_timeout_ms = None;
        s.config.unsubscribe_timeout_ms = None;
        s.config.ping_timeout_ms = None;
        s
    }

    /// Restores every timeout to its default.
    pub fn default_timeouts(self) -> (r: Self)
        ensures
            r@ == (TokioAsyncClientConfig { connect_timeout_ms: Some(30000u64), subscribe_timeout_ms: Some(10000u64), publish_ack_timeout_ms: Some(10000u64), unsubscribe_timeout_ms: Some(10000u64), ping_timeout_ms: Some(5000u64), default_operation_timeout_ms: 30000u64, ..self@ }),
    {
        let mut s = self;
        s.config.connect_timeout_ms = Some(30000);
        s.config.subscribe_timeout_ms = Some(10000);
        s.config.publish_ack_timeout_ms = Some(10000);
        s.config.unsubscribe_timeout_ms = Some(10000);
        s.config.ping_timeout_ms = Some(5000);
        s.config.default_operation_timeout_ms = 30000;
        s
    }

    /// Timeouts for a local network: connect 5 s, requests 3 s, ping 2 s.
    pub fn local_network_timeouts(self) -> (r: Self)
        ensures
            r@ == (TokioAsyncClientConfig { connect_timeout_ms: Some(5000u64), subscribe_timeout_ms: Some(3000u64), publish_ack_timeout_ms: Some(3000u64), unsubscribe_timeout_ms: Some(3000u64), ping_timeout_ms: Some(2000u64), default_operation_timeout_ms: 5000u64, ..self@ }),
    {
        let mut s = self;
        s.config.connect_timeout_ms = Some(5000);
        s.config.subscribe_timeout_ms = Some(3000);
        s.config.publish_ack_timeout_ms = Some(3000);
        s.config.unsubscribe_timeout_ms = Some(3000);
        s.config.ping_timeout_ms = Some(2000);
        s.config.default_operation_timeout_ms = 5000;
        s
    }

    /// Timeouts for the internet: connect 30 s, requests 10 s, ping 5 s.
    pub fn internet_timeouts(self) -> (r: Self)
        ensures
            r@ == (TokioAsyncClientConfig { connect_timeout_ms: Some(30000u64), subscribe_timeout_ms: Some(10000u64), publish_ack_timeout_ms: Some(10000u64), unsubscribe_timeout_ms: Some(10000u64), ping_timeout_ms: Some(5000u64), default_operation_timeout_ms: 30000u64, ..self@ }),
    {
        let mut s = self;
        s.config.connect_timeout_ms = Some(30000);
        s.config.subscribe_timeout_ms = Some(10000);
        s.config.publish_ack_timeout_ms = Some(10000);
        s.config.unsubscribe_timeout_ms = Some(10000);
        s.config.ping_timeout_ms = Some(5000);
        s.config.default_operation_timeout_ms = 30000;
        s
    }

    /// Timeouts for high-latency links: connect 120 s, requests 60 s, ping 30 s.
    pub fn satellite_timeouts(self) -> (r: Self)
        ensures
            r@ == (TokioAsyncClientConfig { connect_timeout_ms: Some(120000u64), subscribe_timeout_ms: Some(60000u64), publish_ack_timeout_ms: Some(60000u64), unsubscribe_timeout_ms: Some(60000u64), ping_timeout_ms: Some(30000u64), default_operation_timeout_ms: 120000u64, ..self@ }),
    {
        let mut s = self;
        s.config.connect_timeout_ms = Some(120000);
        s.config.subscribe_timeout_ms = Some(60000);
        s.config.publish_ack_timeout_ms = Some(60000);
        s.config.unsubscribe_timeout_ms = Some(60000);
        s.config.ping_timeout_ms = Some(30000);
        s.config.default_operation_timeout_ms = 120000;
        s
    }

}

} // verus!
