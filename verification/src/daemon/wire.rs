//! The exit daemon's gateway wire messages, as plain values. Enumerations
//! travel as their protobuf numbers; the types below name them.
use vstd::prelude::*;

verus! {

#[derive(Clone, Copy, Debug, PartialEq, Eq, Structural)]
pub struct ProtocolVersion {
    pub major: u32,
    pub minor: u32,
}

#[derive(Clone, Copy, Debug, PartialEq, Eq, Structural)]
pub struct ProtocolVersionRange {
    pub minimum: Option<ProtocolVersion>,
    pub maximum: Option<ProtocolVersion>,
}

#[derive(Clone, Copy, Debug, PartialEq, Eq, Structural)]
pub struct UnixTimestamp {
    pub seconds: i64,
}

#[derive(Clone, Debug, PartialEq)]
pub struct ErrorStatus {
    pub code: String,
    pub category: i32,
    pub retry_hint: i32,
    pub correlation_id: Vec<u8>,
}

#[derive(Clone, Copy, Debug, PartialEq, Eq, Structural)]
pub enum ErrorCategory {
    Unspecified,
    InvalidInput,
    Unsupported,
    Unavailable,
    Authentication,
    Policy,
    Protocol,
    ResourceExhausted,
    Internal,
}

/// The protobuf number of an error category.
pub open spec fn error_category_number(category: ErrorCategory) -> i32 {
    match category {
        ErrorCategory::Unspecified => 0,
        ErrorCategory::InvalidInput => 1,
        ErrorCategory::Unsupported => 2,
        ErrorCategory::Unavailable => 3,
        ErrorCategory::Authentication => 4,
        ErrorCategory::Policy => 5,
        ErrorCategory::Protocol => 6,
        ErrorCategory::ResourceExhausted => 7,
        ErrorCategory::Internal => 8,
    }
}

impl ErrorCategory {
    pub fn number(self) -> (value: i32)
        ensures
            value == error_category_number(self),
    {
        match self {
            ErrorCategory::Unspecified => 0,
            ErrorCategory::InvalidInput => 1,
            ErrorCategory::Unsupported => 2,
            ErrorCategory::Unavailable => 3,
            ErrorCategory::Authentication => 4,
            ErrorCategory::Policy => 5,
            ErrorCategory::Protocol => 6,
            ErrorCategory::ResourceExhausted => 7,
            ErrorCategory::Internal => 8,
        }
    }
}

#[derive(Clone, Copy, Debug, PartialEq, Eq, Structural)]
pub enum RetryHint {
    Unspecified,
    Never,
    Immediate,
    Backoff,
    AfterDirectoryRefresh,
    AfterTokenRefresh,
    UserActionRequired,
}

/// The protobuf number of a retry hint.
pub open spec fn retry_hint_number(hint: RetryHint) -> i32 {
    match hint {
        RetryHint::Unspecified => 0,
        RetryHint::Never => 1,
        RetryHint::Immediate => 2,
        RetryHint::Backoff => 3,
        RetryHint::AfterDirectoryRefresh => 4,
        RetryHint::AfterTokenRefresh => 5,
        RetryHint::UserActionRequired => 6,
    }
}

impl RetryHint {
    pub fn number(self) -> (value: i32)
        ensures
            value == retry_hint_number(self),
    {
        match self {
            RetryHint::Unspecified => 0,
            RetryHint::Never => 1,
            RetryHint::Immediate => 2,
            RetryHint::Backoff => 3,
            RetryHint::AfterDirectoryRefresh => 4,
            RetryHint::AfterTokenRefresh => 5,
            RetryHint::UserActionRequired => 6,
        }
    }
}

#[derive(Clone, Debug, PartialEq)]
pub struct GatewayFrame {
    pub version: Option<ProtocolVersion>,
    pub session_id: Vec<u8>,
    pub sequence: u64,
    pub body: Option<Body>,
}

#[derive(Clone, Debug, PartialEq)]
pub enum Body {
    ClientHello(ClientHello),
    ServerHello(ServerHello),
    AuthenticateRequest(AuthenticateRequest),
    AuthenticateResponse(AuthenticateResponse),
    OpenTcpRequest(OpenTcpRequest),
    OpenTcpResponse(OpenTcpResponse),
    DnsQuery(DnsQuery),
    DnsResponse(DnsResponse),
    Data(Data),
    WindowUpdate(WindowUpdate),
    HalfClose(HalfClose),
    ResetStream(ResetStream),
    Ping(Ping),
    Pong(Pong),
    GoAway(GoAway),
    Error(ErrorStatus),
    OpenRelayRequest(OpenRelayRequest),
    OpenRelayResponse(OpenRelayResponse),
}

#[derive(Clone, Debug, PartialEq)]
pub struct ClientHello {
    pub supported_versions: Option<ProtocolVersionRange>,
    pub client_nonce: Vec<u8>,
    pub route_mode: i32,
    pub requested_features: Vec<String>,
}

#[derive(Clone, Debug, PartialEq)]
pub struct ServerHello {
    pub selected_version: Option<ProtocolVersion>,
    pub server_nonce: Vec<u8>,
    pub ephemeral_session_id: Vec<u8>,
    pub enabled_features: Vec<String>,
    pub initial_stream_window: u32,
    pub max_concurrent_streams: u32,
    pub session_ttl_seconds: u32,
    pub gateway_id: String,
    pub session_role: i32,
}

#[derive(Clone, Copy, Debug, PartialEq, Eq, Structural)]
pub enum SessionRole {
    Unspecified,
    Entry,
    Relay,
    Exit,
}

#[derive(Clone, Copy, Debug, PartialEq, Eq, Structural)]
pub enum RouteMode {
    Unspecified,
    Standard,
    Enhanced,
    Maximum,
    DirectTor,
}

#[derive(Clone, Debug, PartialEq)]
pub struct AuthenticateRequest {
    pub capability_token: Vec<u8>,
    pub proof_of_possession: Vec<u8>,
}

#[derive(Clone, Debug, PartialEq)]
pub struct AuthenticateResponse {
    pub accepted: bool,
    pub expires_at: Option<UnixTimestamp>,
    pub granted_capabilities: Vec<String>,
    pub error: Option<ErrorStatus>,
}

#[derive(Clone, Debug, PartialEq)]
pub struct OpenTcpRequest {
    pub stream_id: u64,
    pub destination: Option<Destination>,
    pub port: u32,
    pub initial_window: u32,
}

#[derive(Clone, Debug, PartialEq)]
pub struct Destination {
    pub value: Option<Value>,
}

/// A destination: a hostname or the bytes of an IP address.
#[derive(Clone, Debug, PartialEq)]
pub enum Value {
    Hostname(String),
    IpAddress(Vec<u8>),
}

#[derive(Clone, Debug, PartialEq)]
pub struct OpenTcpResponse {
    pub stream_id: u64,
    pub opened: bool,
    pub error: Option<ErrorStatus>,
}

#[derive(Clone, Debug, PartialEq)]
pub struct OpenRelayRequest {
    pub stream_id: u64,
    pub next_gateway_id: String,
    pub next_hop_role: i32,
    pub initial_window: u32,
}

#[derive(Clone, Debug, PartialEq)]
pub struct OpenRelayResponse {
    pub stream_id: u64,
    pub opened: bool,
    pub error: Option<ErrorStatus>,
}

#[derive(Clone, Copy, Debug, PartialEq, Eq, Structural)]
pub enum NextHopRole {
    Unspecified,
    Relay,
    Exit,
}

#[derive(Clone, Debug, PartialEq)]
pub struct DnsQuery {
    pub query_id: u64,
    pub wire_query: Vec<u8>,
}

#[derive(Clone, Debug, PartialEq)]
pub struct DnsResponse {
    pub query_id: u64,
    pub wire_response: Vec<u8>,
}

#[derive(Clone, Debug, PartialEq)]
pub struct Data {
    pub stream_id: u64,
    pub payload: Vec<u8>,
}

#[derive(Clone, Copy, Debug, PartialEq, Eq, Structural)]
pub struct WindowUpdate {
    pub stream_id: u64,
    pub credit: u32,
}

#[derive(Clone, Copy, Debug, PartialEq, Eq, Structural)]
pub struct HalfClose {
    pub stream_id: u64,
}

#[derive(Clone, Debug, PartialEq)]
pub struct ResetStream {
    pub stream_id: u64,
    pub reason: Option<ErrorStatus>,
}

#[derive(Clone, Debug, PartialEq)]
pub struct Ping {
    pub nonce: Vec<u8>,
}

#[derive(Clone, Debug, PartialEq)]
pub struct Pong {
    pub nonce: Vec<u8>,
}

#[derive(Clone, Debug, PartialEq)]
pub struct GoAway {
    pub last_accepted_stream_id: u64,
    pub reason: Option<ErrorStatus>,
}

} // verus!
