//! Error types for the SCServo protocol.

use vstd::prelude::*;

verus! {

/// Protocol error type for SCServo communication.
#[derive(Debug)]
pub enum ProtocolError<E> {
    /// Underlying serial/I/O error.
    Serial(E),
    /// Checksum mismatch in received packet.
    Checksum,
    /// Communication timeout (no response received).
    Timeout,
    /// Invalid protocol header received.
    InvalidHeader,
    /// Invalid servo ID in response.
    InvalidId,
    /// Invalid packet or buffer length.
    InvalidLength,
    /// Invalid setting value (out of range or unsupported).
    InvalidSetting,
    /// Servo reported an error (error code in value).
    ServoError(u8),
}

impl<E> From<E> for ProtocolError<E> {
    fn from(err: E) -> (r: Self) {
        ProtocolError::Serial(err)
    }
}

impl<E> vstd::std_specs::convert::FromSpecImpl<E> for ProtocolError<E> {
    open spec fn obeys_from_spec() -> bool {
        true
    }

    open spec fn from_spec(err: E) -> Self {
        ProtocolError::Serial(err)
    }
}

} // verus!
