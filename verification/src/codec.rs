//! The MQTT wire format: primitive fields, properties, and control packets.

pub mod decode;
pub mod packet;
pub mod property;
pub mod stream;
pub mod wire;
