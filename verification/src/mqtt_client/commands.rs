//! Requests the application hands to the engine.

use vstd::prelude::*;
use crate::codec::packet::{MqttPublish, TopicSubscription};
use crate::codec::property::Property;

verus! {

/// A message to publish.
#[derive(Debug, Clone, PartialEq)]
pub struct PublishCommand {
    pub topic_name: String,
    pub payload: Vec<u8>,
    pub qos: u8,
    pub retain: bool,
    pub dup: bool,
    /// Chosen by the engine when `None` and the QoS is above 0.
    pub packet_id: Option<u16>,
    pub properties: Vec<Property>,
    /// Queued messages of higher priority are sent first.
    pub priority: u8,
}

impl PublishCommand {
    /// The PUBLISH packet that carries the message.
    pub open spec fn spec_publish(self) -> MqttPublish {
        MqttPublish {
            qos: self.qos,
            topic_name: self.topic_name,
            packet_id: self.packet_id,
            payload: self.payload,
            retain: self.retain,
            dup: self.dup,
            properties: self.properties,
        }
    }

    /// The PUBLISH packet that carries the message.
    pub fn to_mqtt_publish(self) -> (r: MqttPublish)
        ensures
            r == self.spec_publish(),
    {
        MqttPublish {
            qos: self.qos,
            topic_name: self.topic_name,
            packet_id: self.packet_id,
            payload: self.payload,
            retain: self.retain,
            dup: self.dup,
            properties: self.properties,
        }
    }
}

/// A subscription request.
#[derive(Debug, Clone, PartialEq)]
pub struct SubscribeCommand {
    /// Chosen by the engine when `None`.
    pub packet_id: Option<u16>,
    pub subscriptions: Vec<TopicSubscription>,
    pub properties: Vec<Property>,
}

/// An unsubscription request.
#[derive(Debug, Clone, PartialEq)]
pub struct UnsubscribeCommand {
    /// Chosen by the engine when `None`.
    pub packet_id: Option<u16>,
    pub topics: Vec<String>,
    pub properties: Vec<Property>,
}

} // verus!
