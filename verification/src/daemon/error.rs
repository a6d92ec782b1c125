//! The daemon's redacted error taxonomy.
use vstd::prelude::*;

use crate::daemon::wire::{
    error_category_number, retry_hint_number, ErrorCategory, ErrorStatus, RetryHint,
};

verus! {

/// Stable gateway-local errors. Variants carry no destination, token,
/// account, address, payload or persistent session data.
#[derive(Clone, Copy, Debug, PartialEq, Eq, Structural)]
pub enum GatewayErrorCode {
    InvalidConfiguration,
    MessageTooLarge,
    ProtocolViolation,
    ProtocolIncompatible,
    AuthenticationUnavailable,
    TokenRejected,
    SessionExpired,
    PolicyDenied,
    DnsFailure,
    DnsRebinding,
    ResourceExhausted,
    RateLimited,
    BandwidthExhausted,
    CircuitOpen,
    Draining,
    EgressFailure,
    EgressInfrastructureFailure,
    Timeout,
    Internal,
}

/// The stable wire name of an error code.
pub open spec fn gateway_error_name(code: GatewayErrorCode) -> &'static str {
    match code {
        GatewayErrorCode::InvalidConfiguration => "invalid_configuration",
        GatewayErrorCode::MessageTooLarge => "message_too_large",
        GatewayErrorCode::ProtocolViolation => "protocol_violation",
        GatewayErrorCode::ProtocolIncompatible => "protocol_incompatible",
        GatewayErrorCode::AuthenticationUnavailable => "authentication_unavailable",
        GatewayErrorCode::TokenRejected => "token_rejected",
        GatewayErrorCode::SessionExpired => "session_expired",
        GatewayErrorCode::PolicyDenied => "policy_denied",
        GatewayErrorCode::DnsFailure => "dns_failure",
        GatewayErrorCode::DnsRebinding => "dns_rebinding",
        GatewayErrorCode::ResourceExhausted => "resource_exhausted",
        GatewayErrorCode::RateLimited => "rate_limited",
        GatewayErrorCode::BandwidthExhausted => "bandwidth_exhausted",
        GatewayErrorCode::CircuitOpen => "circuit_open",
        GatewayErrorCode::Draining => "gateway_draining",
        GatewayErrorCode::EgressFailure => "egress_failure",
        GatewayErrorCode::EgressInfrastructureFailure => "egress_infrastructure_failure",
        GatewayErrorCode::Timeout => "timeout",
        GatewayErrorCode::Internal => "internal",
    }
}

/// The category and retry hint reported for an error code.
pub open spec fn gateway_error_class(code: GatewayErrorCode) -> (ErrorCategory, RetryHint) {
    match code {
        GatewayErrorCode::MessageTooLarge | GatewayErrorCode::ProtocolViolation => (
            ErrorCategory::Protocol,
            RetryHint::Never,
        ),
        GatewayErrorCode::ProtocolIncompatible => (ErrorCategory::Unsupported, RetryHint::Never),
        GatewayErrorCode::AuthenticationUnavailable => (
            ErrorCategory::Unavailable,
            RetryHint::Backoff,
        ),
        GatewayErrorCode::TokenRejected | GatewayErrorCode::SessionExpired => (
            ErrorCategory::Authentication,
            RetryHint::AfterTokenRefresh,
        ),
        GatewayErrorCode::PolicyDenied | GatewayErrorCode::DnsRebinding => (
            ErrorCategory::Policy,
            RetryHint::Never,
        ),
        GatewayErrorCode::DnsFailure | GatewayErrorCode::EgressFailure
        | GatewayErrorCode::EgressInfrastructureFailure | GatewayErrorCode::Timeout
        | GatewayErrorCode::CircuitOpen | GatewayErrorCode::Draining => (
            ErrorCategory::Unavailable,
            RetryHint::Backoff,
        ),
        GatewayErrorCode::ResourceExhausted | GatewayErrorCode::RateLimited
        | GatewayErrorCode::BandwidthExhausted => (
            ErrorCategory::ResourceExhausted,
            RetryHint::Backoff,
        ),
        GatewayErrorCode::InvalidConfiguration | GatewayErrorCode::Internal => (
            ErrorCategory::Internal,
            RetryHint::Never,
        ),
    }
}

impl GatewayErrorCode {
    pub fn as_str(self) -> (name: &'static str)
        ensures
            name == gateway_error_name(self),
    {
        match self {
            GatewayErrorCode::InvalidConfiguration => "invalid_configuration",
            GatewayErrorCode::MessageTooLarge => "message_too_large",
            GatewayErrorCode::ProtocolViolation => "protocol_violation",
            GatewayErrorCode::ProtocolIncompatible => "protocol_incompatible",
            GatewayErrorCode::AuthenticationUnavailable => "authentication_unavailable",
            GatewayErrorCode::TokenRejected => "token_rejected",
            GatewayErrorCode::SessionExpired => "session_expired",
            GatewayErrorCode::PolicyDenied => "policy_denied",
            GatewayErrorCode::DnsFailure => "dns_failure",
            GatewayErrorCode::DnsRebinding => "dns_rebinding",
            GatewayErrorCode::ResourceExhausted => "resource_exhausted",
            GatewayErrorCode::RateLimited => "rate_limited",
            GatewayErrorCode::BandwidthExhausted => "bandwidth_exhausted",
            GatewayErrorCode::CircuitOpen => "circuit_open",
            GatewayErrorCode::Draining => "gateway_draining",
            GatewayErrorCode::EgressFailure => "egress_failure",
            GatewayErrorCode::EgressInfrastructureFailure => "egress_infrastructure_failure",
            GatewayErrorCode::Timeout => "timeout",
            GatewayErrorCode::Internal => "internal",
        }
    }
}

/// An error safe to aggregate or return across the data-plane boundary.
#[derive(Clone, Copy, Debug, PartialEq, Eq, Structural)]
pub struct GatewayError {
    pub code: GatewayErrorCode,
}

impl GatewayError {
    pub fn new(code: GatewayErrorCode) -> (error: Self)
        ensures
            error.code == code,
    {
        GatewayError { code }
    }

    /// The wire status for this error, with the given correlation ID.
    pub fn to_status(self, correlation_id: [u8; 16]) -> (status: ErrorStatus)
        ensures
            status.code@ == gateway_error_name(self.code)@,
            status.category == error_category_number(gateway_error_class(self.code).0),
            status.retry_hint == retry_hint_number(gateway_error_class(self.code).1),
            status.correlation_id@ == correlation_id@,
    {
        let (category, retry_hint) = match self.code {
            GatewayErrorCode::MessageTooLarge | GatewayErrorCode::ProtocolViolation => (
                ErrorCategory::Protocol,
                RetryHint::Never,
            ),
            GatewayErrorCode::ProtocolIncompatible => (ErrorCategory::Unsupported, RetryHint::Never),
            GatewayErrorCode::AuthenticationUnavailable => (
                ErrorCategory::Unavailable,
                RetryHint::Backoff,
            ),
            GatewayErrorCode::TokenRejected | GatewayErrorCode::SessionExpired => (
                ErrorCategory::Authentication,
                RetryHint::AfterTokenRefresh,
            ),
            GatewayErrorCode::PolicyDenied | GatewayErrorCode::DnsRebinding => (
                ErrorCategory::Policy,
                RetryHint::Never,
            ),
            GatewayErrorCode::DnsFailure | GatewayErrorCode::EgressFailure
            | GatewayErrorCode::EgressInfrastructureFailure | GatewayErrorCode::Timeout
            | GatewayErrorCode::CircuitOpen | GatewayErrorCode::Draining => (
                ErrorCategory::Unavailable,
                RetryHint::Backoff,
            ),
            GatewayErrorCode::ResourceExhausted | GatewayErrorCode::RateLimited
            | GatewayErrorCode::BandwidthExhausted => (
                ErrorCategory::ResourceExhausted,
                RetryHint::Backoff,
            ),
            GatewayErrorCode::InvalidConfiguration | GatewayErrorCode::Internal => (
                ErrorCategory::Internal,
                RetryHint::Never,
            ),
        };
        let mut id: Vec<u8> = Vec::new();
        let mut i: usize = 0;
        while i < 16
            invariant
                i <= 16,
                id@ == correlation_id@.subrange(0, i as int),
            decreases 16 - i,
        {
            id.push(correlation_id[i]);
            proof {
                assert(correlation_id@.subrange(0, i + 1) =~= correlation_id@.subrange(
                    0,
                    i as int,
                ).push(correlation_id@[i as int]));
            }
            i = i + 1;
        }
        proof {
            assert(id@ =~= correlation_id@);
        }
        ErrorStatus {
            code: self.code.as_str().to_owned(),
            category: category.number(),
            retry_hint: retry_hint.number(),
            correlation_id: id,
        }
    }
}

impl From<GatewayErrorCode> for GatewayError {
    fn from(code: GatewayErrorCode) -> (error: Self) {
        GatewayError { code }
    }
}

impl vstd::std_specs::convert::FromSpecImpl<GatewayErrorCode> for GatewayError {
    open spec fn obeys_from_spec() -> bool {
        true
    }

    open spec fn from_spec(code: GatewayErrorCode) -> Self {
        GatewayError { code }
    }
}

} // verus!
