//! The v1 gateway messages as plain values. Protobuf encoding and decoding of
//! these values belongs to the transport layer; every rule about their contents
//! lives in this library.
//!
//! Enumerations carry the values this library's rules name, `Unspecified` for
//! the protobuf default, and `Other` for any further value of the schema.
use vstd::prelude::*;

verus! {

#[derive(Clone, Copy, Debug, PartialEq, Eq, Structural)]
pub struct ProtocolVersion {
    pub major: u32,
    pub minor: u32,
}

#[derive(Clone, Copy, Debug, PartialEq, Eq, Structural)]
pub struct ProtocolVersionRange {
    pub minimum: Option<ProtocolVersion>,
    pub maximum: Option<ProtocolVersion>,
}

#[derive(Clone, Copy, Debug, PartialEq, Eq, Structural)]
pub enum AnonymityMode {
    Unspecified,
    Standard,
    DirectTor,
    Other(i32),
}

#[derive(Clone, Copy, Debug, PartialEq, Eq, Structural)]
pub enum ErrorCode {
    Unspecified,
    ProtocolIncompatible,
    AuthenticationFailed,
    Other(i32),
}

#[derive(Clone, Copy, Debug, PartialEq, Eq, Structural)]
pub enum CloseCode {
    Unspecified,
    Timeout,
    Other(i32),
}

#[derive(Clone, Copy, Debug, PartialEq, Eq, Structural)]
pub enum AddressFamily {
    Unspecified,
    Any,
    Other(i32),
}

#[derive(Clone, Copy, Debug, PartialEq, Eq, Structural)]
pub enum RotationReason {
    Unspecified,
    Other(i32),
}

#[derive(Clone, Copy, Debug, PartialEq, Eq, Structural)]
pub enum RetryHint {
    Unspecified,
    Never,
    Other(i32),
}

#[derive(Clone, Debug)]
pub struct ClientHello {
    pub supported_versions: Option<ProtocolVersionRange>,
    pub client_capabilities: Vec<String>,
    pub anonymity_mode: AnonymityMode,
    pub desired_country: String,
    pub session_nonce: Vec<u8>,
    pub maximum_frame_size: u32,
    pub initial_connection_receive_window: u32,
    pub initial_stream_receive_window: u32,
}

#[derive(Clone, Debug)]
pub struct ServerHello {
    pub supported_versions: Option<ProtocolVersionRange>,
    pub selected_version: Option<ProtocolVersion>,
    pub enabled_capabilities: Vec<String>,
    pub echoed_client_nonce: Vec<u8>,
    pub server_nonce: Vec<u8>,
    pub ephemeral_session_id: Vec<u8>,
    pub maximum_frame_size: u32,
    pub maximum_concurrent_streams: u32,
    pub initial_connection_receive_window: u32,
    pub initial_stream_receive_window: u32,
    pub idle_stream_timeout_ms: u32,
    pub session_ttl_seconds: u32,
}

#[derive(Clone, Debug)]
pub struct Authenticate {
    pub anonymous_capability_token: Vec<u8>,
    pub proof_of_possession: Vec<u8>,
    pub session_nonce_binding: Vec<u8>,
}

#[derive(Clone, Debug)]
pub struct AuthenticationResult {
    pub accepted: bool,
    pub error_code: ErrorCode,
    pub granted_capabilities: Vec<String>,
    pub expires_at_unix_seconds: i64,
}

#[derive(Clone, Debug)]
pub enum DestinationValue {
    Hostname(String),
    IpAddress(Vec<u8>),
}

#[derive(Clone, Debug)]
pub struct Destination {
    pub value: Option<DestinationValue>,
}

#[derive(Clone, Debug)]
pub struct OpenTcpStream {
    pub stream_id: u64,
    pub destination: Option<Destination>,
    pub destination_port: u32,
    pub timeout_ms: u32,
    pub policy_flags: u32,
    pub initial_receive_window: u32,
}

#[derive(Clone, Copy, Debug)]
pub struct TcpStreamOpened {
    pub stream_id: u64,
    pub initial_receive_window: u32,
}

#[derive(Clone, Copy, Debug)]
pub struct TcpStreamRejected {
    pub stream_id: u64,
    pub error_code: ErrorCode,
    pub retry_hint: RetryHint,
}

#[derive(Clone, Debug)]
pub struct Data {
    pub stream_id: u64,
    pub payload: Vec<u8>,
}

#[derive(Clone, Copy, Debug)]
pub struct WindowUpdate {
    pub stream_id: u64,
    pub credit: u32,
}

#[derive(Clone, Copy, Debug)]
pub struct HalfClose {
    pub stream_id: u64,
}

#[derive(Clone, Copy, Debug)]
pub struct CloseStream {
    pub stream_id: u64,
    pub code: CloseCode,
}

#[derive(Clone, Debug)]
pub struct ResolveDomain {
    pub query_id: u64,
    pub hostname: String,
    pub address_family: AddressFamily,
    pub timeout_ms: u32,
}

#[derive(Clone, Debug)]
pub struct ResolveResult {
    pub query_id: u64,
    pub ip_addresses: Vec<Vec<u8>>,
    pub error_code: ErrorCode,
    pub minimum_ttl_seconds: u32,
}

#[derive(Clone, Debug)]
pub struct RotateSession {
    pub rotation_nonce: Vec<u8>,
    pub reason: RotationReason,
    pub drain_timeout_ms: u32,
}

#[derive(Clone, Debug)]
pub struct SessionRotated {
    pub rotation_nonce: Vec<u8>,
    pub accepted: bool,
    pub error_code: ErrorCode,
    pub replacement_transport_required: bool,
}

#[derive(Clone, Debug)]
pub struct Ping {
    pub nonce: Vec<u8>,
}

#[derive(Clone, Debug)]
pub struct Pong {
    pub nonce: Vec<u8>,
}

#[derive(Clone, Debug)]
pub struct Error {
    pub code: ErrorCode,
    pub retry_hint: RetryHint,
    pub fatal: bool,
    pub stream_id: u64,
    pub retry_after_ms: u32,
    pub correlation_id: Vec<u8>,
}

#[derive(Clone, Copy, Debug)]
pub struct GoAway {
    pub last_accepted_stream_id: u64,
    pub code: ErrorCode,
    pub drain_timeout_ms: u32,
}

/// The body of a gateway frame, one variant per v1 message.
#[derive(Clone, Debug)]
pub enum Body {
    ClientHello(ClientHello),
    ServerHello(ServerHello),
    Authenticate(Authenticate),
    AuthenticationResult(AuthenticationResult),
    OpenTcpStream(OpenTcpStream),
    TcpStreamOpened(TcpStreamOpened),
    TcpStreamRejected(TcpStreamRejected),
    Data(Data),
    WindowUpdate(WindowUpdate),
    HalfClose(HalfClose),
    CloseStream(CloseStream),
    ResolveDomain(ResolveDomain),
    ResolveResult(ResolveResult),
    RotateSession(RotateSession),
    SessionRotated(SessionRotated),
    Ping(Ping),
    Pong(Pong),
    Error(Error),
    GoAway(GoAway),
}

#[derive(Clone, Debug)]
pub struct GatewayFrame {
    pub sequence: u64,
    pub version: Option<ProtocolVersion>,
    pub critical_extension_ids: Vec<u32>,
    pub session_id: Vec<u8>,
    pub body: Option<Body>,
}

/// The protobuf field number of each body variant within the frame.
pub open spec fn body_tag(body: Body) -> u32 {
    match body {
        Body::ClientHello(_) => 10,
        Body::ServerHello(_) => 11,
        Body::Authenticate(_) => 12,
        Body::AuthenticationResult(_) => 13,
        Body::OpenTcpStream(_) => 14,
        Body::TcpStreamOpened(_) => 15,
        Body::TcpStreamRejected(_) => 16,
        Body::Data(_) => 17,
        Body::WindowUpdate(_) => 18,
        Body::HalfClose(_) => 19,
        Body::CloseStream(_) => 20,
        Body::ResolveDomain(_) => 21,
        Body::ResolveResult(_) => 22,
        Body::RotateSession(_) => 23,
        Body::SessionRotated(_) => 24,
        Body::Ping(_) => 25,
        Body::Pong(_) => 26,
        Body::Error(_) => 27,
        Body::GoAway(_) => 28,
    }
}

} // verus!
