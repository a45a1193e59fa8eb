//! The errors of the transports that carry MQTT connections.

use vstd::prelude::*;
use std::io;

verus! {

/// Why a transport failed.
pub enum TransportError {
    ConnectionFailed(String),
    Io(io::Error),
    NotSupported(String),
    InvalidAddress(String),
}

} // verus!
