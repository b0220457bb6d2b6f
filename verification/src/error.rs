//! The library's error type.

use vstd::prelude::*;

verus! {

/// Errors reported by the library.
#[derive(Debug, Clone, PartialEq)]
pub enum SterngateError {
    /// Hardware interface error.
    HalError(String),
    /// Device not connected or unreachable.
    DeviceNotFound(String),
    /// ISO-TP protocol error.
    IsoTpError(String),
    /// Protocol error.
    ProtocolError(String),
    /// ISO-TP timeout waiting for a response.
    IsoTpTimeout,
    /// UDS negative response code for a service.
    UdsNegativeResponse { service: u8, nrc: u8, description: String },
    /// Security access denied.
    SecurityAccessDenied(String),
    /// Vehicle profile error.
    ProfileError(String),
    /// A parameter could not be parsed.
    ParameterParseError { name: String, reason: String },
    /// A flashing pre-flight check failed.
    PreFlightCheckFailed(String),
    /// The flashing API is locked by a running flash.
    FlashingApiLocked,
    /// A flashing sequence was aborted.
    FlashAborted(String),
    /// Battery voltage below the required minimum, both in millivolts.
    VoltageTooLow { current_mv: u32, required_mv: u32 },
    /// Checksum mismatch.
    ChecksumMismatch { expected: String, calculated: String },
    /// Peer-to-peer tunnel error.
    P2pError(String),
    /// Serialization error.
    SerializationError(String),
    /// Internal error.
    Internal(String),
}

} // verus!
