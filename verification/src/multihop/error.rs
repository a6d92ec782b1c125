//! Stable, redacted errors of the multi-hop gateway.
use vstd::prelude::*;

use crate::gateway::error::ProtocolError;

verus! {

/// Stable, redacted error codes. No variant stores a destination, credential,
/// session payload, source address, account identifier or peer-supplied text.
#[derive(Clone, Copy, Debug, PartialEq, Eq, Structural)]
pub enum ErrorCode {
    InvalidConfiguration,
    InvalidIdentity,
    WrongRole,
    Revoked,
    ProtocolIncompatible,
    ProtocolViolation,
    ReplayDetected,
    AuthenticationRejected,
    PolicyDenied,
    ResourceExhausted,
    Backpressure,
    Draining,
    Timeout,
    TransportFailure,
    Closed,
    Internal,
}

/// An enhanced-transport failure, identified by its code alone.
#[derive(Clone, Copy, Debug, PartialEq, Eq, Structural)]
pub struct Error {
    pub code: ErrorCode,
}

impl Error {
    pub fn new(code: ErrorCode) -> (error: Self)
        ensures
            error.code == code,
    {
        Error { code }
    }
}

impl From<ErrorCode> for Error {
    fn from(code: ErrorCode) -> (error: Self) {
        Error { code }
    }
}

impl vstd::std_specs::convert::FromSpecImpl<ErrorCode> for Error {
    open spec fn obeys_from_spec() -> bool {
        true
    }

    open spec fn from_spec(code: ErrorCode) -> Self {
        Error { code }
    }
}

/// The code that a protocol-layer failure maps to.
pub open spec fn protocol_error_code(error: ProtocolError) -> ErrorCode {
    match error {
        ProtocolError::Backpressure => ErrorCode::Backpressure,
        ProtocolError::StreamLimit => ErrorCode::ResourceExhausted,
        ProtocolError::IncompatibleVersion | ProtocolError::SilentDowngrade => {
            ErrorCode::ProtocolIncompatible
        },
        ProtocolError::HandshakeTimeout | ProtocolError::IdleTimeout => ErrorCode::Timeout,
        ProtocolError::Closed => ErrorCode::Closed,
        ProtocolError::Io => ErrorCode::TransportFailure,
        _ => ErrorCode::ProtocolViolation,
    }
}

impl From<ProtocolError> for Error {
    fn from(error: ProtocolError) -> (converted: Self) {
        let code = match error {
            ProtocolError::Backpressure => ErrorCode::Backpressure,
            ProtocolError::StreamLimit => ErrorCode::ResourceExhausted,
            ProtocolError::IncompatibleVersion | ProtocolError::SilentDowngrade => {
                ErrorCode::ProtocolIncompatible
            },
            ProtocolError::HandshakeTimeout | ProtocolError::IdleTimeout => ErrorCode::Timeout,
            ProtocolError::Closed => ErrorCode::Closed,
            ProtocolError::Io => ErrorCode::TransportFailure,
            _ => ErrorCode::ProtocolViolation,
        };
        Error { code }
    }
}

impl vstd::std_specs::convert::FromSpecImpl<ProtocolError> for Error {
    open spec fn obeys_from_spec() -> bool {
        true
    }

    open spec fn from_spec(error: ProtocolError) -> Self {
        Error { code: protocol_error_code(error) }
    }
}

} // verus!
