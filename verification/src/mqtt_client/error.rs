//! The errors the client reports.

use vstd::prelude::*;

verus! {

/// An error of the MQTT client.
#[derive(Debug, Clone, PartialEq)]
pub enum MqttClientError {
    /// The operation breaks the protocol or the client's state.
    ProtocolViolation { message: String },
    /// The bytes received are not a packet of the protocol version in use.
    MalformedPacket,
    /// The operation needs a connection and there is none.
    NotConnected,
    /// The connection ended before the operation completed.
    ConnectionLost { reason: String },
    /// The operation was abandoned, for example by a disconnect.
    OperationCancelled { operation: String },
    /// A bounded buffer had no room.
    BufferFull { buffer_type: String, capacity: usize },
    /// A setting or saved state the operation cannot use.
    InvalidConfiguration { field: String, reason: String },
    /// The client is not in the state the operation needs.
    InvalidState { expected: String, actual: String },
}

/// A copy of an error.
pub fn copy_error(e: &MqttClientError) -> (r: MqttClientError)
    ensures
        r == *e,
{
    match e {
        MqttClientError::ProtocolViolation { message } => MqttClientError::ProtocolViolation { message: message.clone() },
        MqttClientError::MalformedPacket => MqttClientError::MalformedPacket,
        MqttClientError::NotConnected => MqttClientError::NotConnected,
        MqttClientError::ConnectionLost { reason } => MqttClientError::ConnectionLost { reason: reason.clone() },
        MqttClientError::OperationCancelled { operation } => {
            MqttClientError::OperationCancelled { operation: operation.clone() }
        },
        MqttClientError::BufferFull { buffer_type, capacity } => {
            MqttClientError::BufferFull { buffer_type: buffer_type.clone(), capacity: *capacity }
        },
        MqttClientError::InvalidConfiguration { field, reason } => {
            MqttClientError::InvalidConfiguration { field: field.clone(), reason: reason.clone() }
        },
        MqttClientError::InvalidState { expected, actual } => {
            MqttClientError::InvalidState { expected: expected.clone(), actual: actual.clone() }
        },
    }
}

} // verus!
