//! The capability-token verification boundary.
use vstd::prelude::*;

use crate::daemon::error::{GatewayError, GatewayErrorCode};

verus! {

/// What a verifier sees of an authentication attempt. The daemon never keeps
/// either byte string. Times are Unix milliseconds.
pub struct AuthenticationRequest<'a> {
    pub capability_token: &'a [u8],
    pub proof_of_possession: &'a [u8],
    pub now_unix_ms: u64,
}

/// Limits cryptographically bound to an anonymous capability token.
#[derive(Clone, Copy, Debug, PartialEq, Eq, Structural)]
pub struct TokenLimits {
    pub max_sessions: usize,
    pub max_concurrent_streams: usize,
    pub connections_per_second: u32,
    pub connection_burst: u32,
    pub bytes_per_second: u64,
    pub bandwidth_burst_bytes: u64,
    pub total_bytes: u64,
}

/// Successful verification output. No account, device, payment, issuance or
/// client-network identifier belongs in this type.
#[derive(Clone, Debug)]
pub struct AuthenticationGrant {
    pub expires_at_unix_ms: u64,
    pub capabilities: Vec<String>,
    pub limits: TokenLimits,
}

/// The verifier used until a reviewed token format is wired in: it refuses
/// everything, so a misconfigured deployment is unavailable, never open.
#[derive(Clone, Copy, Debug, Default)]
pub struct DenyAllAuthenticationVerifier;

impl DenyAllAuthenticationVerifier {
    /// The decision on any request: authentication is unavailable.
    pub fn decide(&self, request: &AuthenticationRequest) -> (result: Result<
        AuthenticationGrant,
        GatewayError,
    >)
        ensures
            result matches Err(e) && e.code == GatewayErrorCode::AuthenticationUnavailable,
    {
        Err(GatewayError::new(GatewayErrorCode::AuthenticationUnavailable))
    }
}

} // verus!
