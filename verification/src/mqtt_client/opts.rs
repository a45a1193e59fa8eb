//! Client options and their builder.

use vstd::prelude::*;
use crate::codec::packet::{TopicSubscription, Will};

verus! {

/// How a client connects and behaves.
pub struct MqttClientOptions {
    /// The broker address, `host:port`.
    pub peer: String,
    pub client_id: String,
    pub clean_start: bool,
    /// The keep-alive interval in seconds; 0 turns keep-alive off.
    pub keep_alive: u16,
    pub username: Option<String>,
    pub password: Option<Vec<u8>>,
    pub will: Option<Will>,
    pub reconnect: bool,
    /// If true, no session state is kept between connections.
    pub sessionless: bool,
    /// Topics to subscribe to on connect when not yet subscribed.
    pub subscription_topics: Vec<TopicSubscription>,
    /// If true, incoming QoS 1 and QoS 2 messages are acknowledged automatically.
    pub auto_ack: bool,
    /// Session Expiry Interval in seconds (MQTT 5); `None` or 0: the session
    /// ends with the connection; 0xFFFFFFFF: it never expires.
    pub session_expiry_interval: Option<u32>,
    /// Maximum Packet Size the client accepts (MQTT 5); `None`: unlimited.
    pub maximum_packet_size: Option<u32>,
    /// Request Response Information (MQTT 5); `None`: not sent.
    pub request_response_information: Option<bool>,
    /// Request Problem Information (MQTT 5); `None`: not sent.
    pub request_problem_information: Option<bool>,
    /// The protocol version spoken: 5 for MQTT 5, otherwise MQTT 3.1.1.
    pub mqtt_version: u8,
}

impl Default for MqttClientOptions {
    fn default() -> (r: Self)
        ensures
            r.peer@ == "localhost:1883"@,
            r.client_id@ == "mqtt_client"@,
            r.clean_start,
            r.keep_alive == 60,
            r.username is None,
            r.password is None,
            r.will is None,
            !r.reconnect,
            !r.sessionless,
            r.subscription_topics@.len() == 0,
            r.auto_ack,
            r.session_expiry_interval is None,
            r.maximum_packet_size is None,
            r.request_response_information is None,
            r.request_problem_information is None,
            r.mqtt_version == 5,
    {
        MqttClientOptions {
            peer: "localhost:1883".to_owned(),
            client_id: "mqtt_client".to_owned(),
            clean_start: true,
            keep_alive: 60,
            username: None,
            password: None,
            will: None,
            reconnect: false,
            sessionless: false,
            subscription_topics: Vec::new(),
            auto_ack: true,
            session_expiry_interval: None,
            maximum_packet_size: None,
            request_response_information: None,
            request_problem_information: None,
            mqtt_version: 5,
        }
    }
}

impl MqttClientOptions {
    /// A builder that starts from the default options.
    pub fn builder() -> (r: Self)
        ensures
            r.peer@ == "localhost:1883"@,
            r.client_id@ == "mqtt_client"@,
            r.clean_start,
            r.keep_alive == 60,
            r.username is None,
            r.password is None,
            r.will is None,
            !r.reconnect,
            !r.sessionless,
            r.subscription_topics@.len() == 0,
            r.auto_ack,
            r.session_expiry_interval is None,
            r.maximum_packet_size is None,
            r.request_response_information is None,
            r.request_problem_information is None,
            r.mqtt_version == 5,
    {
        Self::default()
    }

    /// Sets the broker address (`host:port`).
    pub fn peer(self, peer: &str) -> (r: Self)
        ensures
            r.peer@ == peer@,
            r == (MqttClientOptions { peer: r.peer, ..self }),
    {
        let mut s = self;
        s.peer = peer.to_owned();
        s
    }

    /// Sets the client identifier.
    pub fn client_id(self, client_id: &str) -> (r: Self)
        ensures
            r.client_id@ == client_id@,
            r == (MqttClientOptions { client_id: r.client_id, ..self }),
    {
        let mut s = self;
        s.client_id = client_id.to_owned();
        s
    }

    /// Sets the Clean Start flag.
    pub fn clean_start(self, clean_start: bool) -> (r: Self)
        ensures
            r == (MqttClientOptions { clean_start, ..self }),
    {
        let mut s = self;
        s.clean_start = clean_start;
        s
    }

    /// Sets the keep-alive interval in seconds.
    pub fn keep_alive(self, keep_alive: u16) -> (r: Self)
        ensures
            r == (MqttClientOptions { keep_alive, ..self }),
    {
        let mut s = self;
        s.keep_alive = keep_alive;
        s
    }

    /// Sets the user name.
    pub fn username(self, username: &str) -> (r: Self)
        ensures
            r.username matches Some(u) && u@ == username@,
            r == (MqttClientOptions { username: r.username, ..self }),
    {
        let mut s = self;
        s.username = Some(username.to_owned());
        s
    }

    /// Sets the password.
    pub fn password(self, password: Vec<u8>) -> (r: Self)
        ensures
            r == (MqttClientOptions { password: Some(password), ..self }),
    {
        let mut s = self;
        s.password = Some(password);
        s
    }

    /// Sets the Last Will and Testament.
    pub fn will(self, will: Will) -> (r: Self)
        ensures
            r == (MqttClientOptions { will: Some(will), ..self }),
    {
        let mut s = self;
        s.will = Some(will);
        s
    }

    /// Sets whether to reconnect when the connection is lost.
    pub fn reconnect(self, reconnect: bool) -> (r: Self)
        ensures
            r == (MqttClientOptions { reconnect, ..self }),
    {
        let mut s = self;
        s.reconnect = reconnect;
        s
    }

    /// Sets whether to keep no session state between connections.
    pub fn sessionless(self, sessionless: bool) -> (r: Self)
        ensures
            r == (MqttClientOptions { sessionless, ..self }),
    {
        let mut s = self;
        s.sessionless = sessionless;
        s
    }

    /// Sets the topics to subscribe to on connect.
    pub fn subscription_topics(self, topics: Vec<TopicSubscription>) -> (r: Self)
        ensures
            r == (MqttClientOptions { subscription_topics: topics, ..self }),
    {
        let mut s = self;
        s.subscription_topics = topics;
        s
    }

    /// Adds one topic to subscribe to on connect, after the others.
    pub fn add_subscription_topic(self, topic: TopicSubscription) -> (r: Self)
        ensures
            r.subscription_topics@ == self.subscription_topics@.push(topic),
            r == (MqttClientOptions { subscription_topics: r.subscription_topics, ..self }),
    {
        let mut s = self;
        s.subscription_topics.push(topic);
        s
    }

    /// Sets whether incoming QoS 1 and QoS 2 messages are acknowledged automatically.
    pub fn auto_ack(self, auto_ack: bool) -> (r: Self)
        ensures
            r == (MqttClientOptions { auto_ack, ..self }),
    {
        let mut s = self;
        s.auto_ack = auto_ack;
        s
    }

    /// Sets the Session Expiry Interval in seconds (MQTT 5).
    pub fn session_expiry_interval(self, interval: u32) -> (r: Self)
        ensures
            r == (MqttClientOptions { session_expiry_interval: Some(interval), ..self }),
    {
        let mut s = self;
        s.session_expiry_interval = Some(interval);
        s
    }

    /// Sets the largest packet, in bytes, the client accepts (MQTT 5). A
    /// size of 0 is a protocol violation and is not accepted.
    pub fn maximum_packet_size(self, size: u32) -> (r: Self)
        requires
            size > 0,
        ensures
            r == (MqttClientOptions { maximum_packet_size: Some(size), ..self }),
    {
        let mut s = self;
        s.maximum_packet_size = Some(size);
        s
    }

    /// Removes the packet size limit.
    pub fn no_maximum_packet_size(self) -> (r: Self)
        ensures
            r == (MqttClientOptions { maximum_packet_size: None, ..self }),
    {
        let mut s = self;
        s.maximum_packet_size = None;
        s
    }

    /// Asks the server for response information in CONNACK (MQTT 5).
    pub fn request_response_information(self, request: bool) -> (r: Self)
        ensures
            r == (MqttClientOptions { request_response_information: Some(request), ..self }),
    {
        let mut s = self;
        s.request_response_information = Some(request);
        s
    }

    /// Asks the server for reason strings and user properties on failures (MQTT 5).
    pub fn request_problem_information(self, request: bool) -> (r: Self)
        ensures
            r == (MqttClientOptions { request_problem_information: Some(request), ..self }),
    {
        let mut s = self;
        s.request_problem_information = Some(request);
        s
    }

    /// Sets the protocol version: 5 for MQTT 5, otherwise MQTT 3.1.1.
    pub fn mqtt_version(self, version: u8) -> (r: Self)
        ensures
            r == (MqttClientOptions { mqtt_version: version, ..self }),
    {
        let mut s = self;
        s.mqtt_version = version;
        s
    }

    /// The finished options; nothing further is checked.
    pub fn build(self) -> (r: Self)
        ensures
            r == self,
    {
        self
    }
}

} // verus!
