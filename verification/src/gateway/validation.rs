//! Field-level validation of every v1 message.
//!
//! Each message is checked field by field in a fixed order; the first failing
//! field names the error.
use vstd::prelude::*;

use crate::daemon::acl::{check_labels, labels_ok};
use crate::daemon::dns::{label_views, split_dots, split_labels};
use crate::gateway::error::ProtocolError;
use crate::gateway::limits::{
    ABSOLUTE_MAX_FRAME_SIZE, MAX_CAPABILITY_TOKEN, MAX_CONCURRENT_STREAMS, MAX_CONNECTION_WINDOW,
    MAX_DATA_PAYLOAD, MAX_DRAIN_TIMEOUT_MS, MAX_HOSTNAME, MAX_PROOF_OF_POSSESSION,
    MAX_RESOLVE_ADDRESSES, MAX_SESSION_TTL_SECONDS, MAX_STREAM_WINDOW, MAX_TIMEOUT_MS,
    MIN_NEGOTIABLE_FRAME_SIZE,
};
use crate::gateway::negotiation::{
    capabilities_result, validate_capabilities, validate_version_range, version_range_result,
};
use crate::gateway::wire::{
    AddressFamily, AnonymityMode, Authenticate, AuthenticationResult, Body, CloseCode, CloseStream,
    ClientHello, Data, DestinationValue, Error, ErrorCode, GatewayFrame, GoAway, OpenTcpStream, ResolveDomain,
    ResolveResult, RotateSession, RotationReason, ServerHello, SessionRotated, TcpStreamOpened,
    TcpStreamRejected, WindowUpdate, Ping, Pong,
};
use crate::text::{bytes_of_string, text_bytes, texts};

verus! {

/// Logical stream IDs are odd and non-zero.
pub open spec fn stream_id_is_valid(stream_id: u64) -> bool {
    stream_id != 0 && stream_id % 2 == 1
}

/// Accepts exactly the IDs that `stream_id_is_valid` describes.
pub fn validate_stream_id(stream_id: u64) -> (result: Result<(), ProtocolError>)
    ensures
        result is Ok <==> stream_id_is_valid(stream_id),
        result is Err ==> result == Err::<(), ProtocolError>(ProtocolError::InvalidStreamId),
        result == stream_id_result(stream_id),
{
    if stream_id == 0 || stream_id % 2 == 0 {
        return Err(ProtocolError::InvalidStreamId);
    }
    Ok(())
}

pub open spec fn stream_id_result(stream_id: u64) -> Result<(), ProtocolError> {
    if stream_id_is_valid(stream_id) {
        Ok(())
    } else {
        Err(ProtocolError::InvalidStreamId)
    }
}

/// A hostname: 1 to 253 bytes, no final dot, every dot-separated label valid.
pub open spec fn hostname_valid(b: Seq<u8>) -> bool {
    &&& 1 <= b.len() <= MAX_HOSTNAME
    &&& b[b.len() - 1] != 46
    &&& labels_ok(split_dots(b))
}

pub open spec fn hostname_result(b: Seq<u8>) -> Result<(), ProtocolError> {
    if hostname_valid(b) {
        Ok(())
    } else {
        Err(ProtocolError::InvalidField("hostname"))
    }
}

pub fn validate_hostname(hostname: &str) -> (result: Result<(), ProtocolError>)
    ensures
        result == hostname_result(vstd::utf8::encode_utf8(hostname@)),
{
    let bytes = hostname.as_bytes();
    if bytes.len() == 0 || bytes.len() > MAX_HOSTNAME || bytes[bytes.len() - 1] == 46 {
        return Err(ProtocolError::InvalidField("hostname"));
    }
    let labels = split_labels(bytes);
    if !check_labels(&labels) {
        return Err(ProtocolError::InvalidField("hostname"));
    }
    Ok(())
}

/// The result of requiring a length of exactly `expected`.
pub open spec fn exact_result(length: nat, expected: nat, field: &'static str) -> Result<
    (),
    ProtocolError,
> {
    if length == expected {
        Ok(())
    } else {
        Err(ProtocolError::InvalidField(field))
    }
}

/// The result of requiring a length within `minimum..=maximum`.
pub open spec fn range_result(length: nat, minimum: nat, maximum: nat, field: &'static str) -> Result<
    (),
    ProtocolError,
> {
    if minimum <= length <= maximum {
        Ok(())
    } else {
        Err(ProtocolError::InvalidField(field))
    }
}

fn exact_length(value: &[u8], expected: usize, field: &'static str) -> (result: Result<
    (),
    ProtocolError,
>)
    ensures
        result == exact_result(value@.len(), expected as nat, field),
{
    if value.len() != expected {
        return Err(ProtocolError::InvalidField(field));
    }
    Ok(())
}

fn bounded_range(value: &[u8], minimum: usize, maximum: usize, field: &'static str) -> (result:
    Result<(), ProtocolError>)
    ensures
        result == range_result(value@.len(), minimum as nat, maximum as nat, field),
{
    if !(minimum <= value.len() && value.len() <= maximum) {
        return Err(ProtocolError::InvalidField(field));
    }
    Ok(())
}

/// Then: the first error of two checks.
pub open spec fn and_then(first: Result<(), ProtocolError>, second: Result<(), ProtocolError>) -> Result<
    (),
    ProtocolError,
> {
    match first {
        Err(e) => Err(e),
        Ok(()) => second,
    }
}

/// A check that fails with `InvalidField(field)` unless `ok`.
pub open spec fn field_check(ok: bool, field: &'static str) -> Result<(), ProtocolError> {
    if ok {
        Ok(())
    } else {
        Err(ProtocolError::InvalidField(field))
    }
}

pub open spec fn frame_limit_ok(value: u32) -> bool {
    MIN_NEGOTIABLE_FRAME_SIZE <= value <= ABSOLUTE_MAX_FRAME_SIZE
}

pub open spec fn connection_window_ok(value: u32) -> bool {
    value != 0 && value <= MAX_CONNECTION_WINDOW
}

pub open spec fn stream_window_ok(value: u32) -> bool {
    value != 0 && value <= MAX_STREAM_WINDOW
}

pub open spec fn timeout_ok(value: u32) -> bool {
    value != 0 && value <= MAX_TIMEOUT_MS
}

pub open spec fn drain_timeout_ok(value: u32) -> bool {
    value != 0 && value <= MAX_DRAIN_TIMEOUT_MS
}

/// An empty country, or two upper-case ASCII letters.
pub open spec fn country_ok(b: Seq<u8>) -> bool {
    b.len() == 0 || (b.len() == 2 && 65 <= b[0] <= 90 && 65 <= b[1] <= 90)
}

fn check_frame_limit(value: u32) -> (result: Result<(), ProtocolError>)
    ensures
        result == field_check(frame_limit_ok(value), "maximum_frame_size"),
{
    if !((MIN_NEGOTIABLE_FRAME_SIZE as u64) <= value as u64 && value as u64
        <= ABSOLUTE_MAX_FRAME_SIZE as u64) {
        return Err(ProtocolError::InvalidField("maximum_frame_size"));
    }
    Ok(())
}

fn check_connection_window(value: u32) -> (result: Result<(), ProtocolError>)
    ensures
        result == field_check(connection_window_ok(value), "connection_window"),
{
    if value == 0 || value as u64 > MAX_CONNECTION_WINDOW {
        return Err(ProtocolError::InvalidField("connection_window"));
    }
    Ok(())
}

fn check_stream_window(value: u32) -> (result: Result<(), ProtocolError>)
    ensures
        result == field_check(stream_window_ok(value), "stream_window"),
{
    if value == 0 || value as u64 > MAX_STREAM_WINDOW {
        return Err(ProtocolError::InvalidField("stream_window"));
    }
    Ok(())
}

fn check_timeout(value: u32) -> (result: Result<(), ProtocolError>)
    ensures
        result == field_check(timeout_ok(value), "timeout_ms"),
{
    if value == 0 || value > MAX_TIMEOUT_MS {
        return Err(ProtocolError::InvalidField("timeout_ms"));
    }
    Ok(())
}

fn check_drain_timeout(value: u32) -> (result: Result<(), ProtocolError>)
    ensures
        result == field_check(drain_timeout_ok(value), "drain_timeout_ms"),
{
    if value == 0 || value > MAX_DRAIN_TIMEOUT_MS {
        return Err(ProtocolError::InvalidField("drain_timeout_ms"));
    }
    Ok(())
}

fn check_country(country: &String) -> (result: Result<(), ProtocolError>)
    ensures
        result == field_check(country_ok(text_bytes(*country)), "desired_country"),
{
    let b = bytes_of_string(country);
    if b.len() != 0 && (b.len() != 2 || !(b[0] >= 65 && b[0] <= 90 && b[1] >= 65 && b[1] <= 90)) {
        return Err(ProtocolError::InvalidField("desired_country"));
    }
    Ok(())
}

/// The outcome of `validate_client_hello`.
pub open spec fn client_hello_result(m: ClientHello) -> Result<(), ProtocolError> {
    match m.supported_versions {
        None => Err(ProtocolError::InvalidField("supported_versions")),
        Some(range) => match version_range_result(range) {
            Err(e) => Err(e),
            Ok(_) => and_then(
                capabilities_result(texts(m.client_capabilities@)),
                and_then(
                    field_check(
                        m.anonymity_mode != AnonymityMode::Unspecified && m.anonymity_mode
                            != AnonymityMode::DirectTor,
                        "anonymity_mode",
                    ),
                    and_then(
                        field_check(country_ok(text_bytes(m.desired_country)), "desired_country"),
                        and_then(
                            exact_result(m.session_nonce@.len(), 32, "session_nonce"),
                            and_then(
                                field_check(frame_limit_ok(m.maximum_frame_size), "maximum_frame_size"),
                                and_then(
                                    field_check(
                                        connection_window_ok(m.initial_connection_receive_window),
                                        "connection_window",
                                    ),
                                    field_check(
                                        stream_window_ok(m.initial_stream_receive_window),
                                        "stream_window",
                                    ),
                                ),
                            ),
                        ),
                    ),
                ),
            ),
        },
    }
}

pub fn validate_client_hello(message: &ClientHello) -> (result: Result<(), ProtocolError>)
    ensures
        result == client_hello_result(*message),
{
    let range = match &message.supported_versions {
        Some(range) => range,
        None => return Err(ProtocolError::InvalidField("supported_versions")),
    };
    validate_version_range(range)?;
    validate_capabilities(message.client_capabilities.as_slice())?;
    match message.anonymity_mode {
        AnonymityMode::Unspecified | AnonymityMode::DirectTor => {
            return Err(ProtocolError::InvalidField("anonymity_mode"));
        },
        _ => {},
    }
    check_country(&message.desired_country)?;
    exact_length(message.session_nonce.as_slice(), 32, "session_nonce")?;
    check_frame_limit(message.maximum_frame_size)?;
    check_connection_window(message.initial_connection_receive_window)?;
    check_stream_window(message.initial_stream_receive_window)
}

/// The outcome of `validate_server_hello`.
pub open spec fn server_hello_result(m: ServerHello) -> Result<(), ProtocolError> {
    match m.supported_versions {
        None => Err(ProtocolError::InvalidField("supported_versions")),
        Some(range) => match version_range_result(range) {
            Err(e) => Err(e),
            Ok(_) => and_then(
                field_check(
                    m.selected_version matches Some(v) && v.major != 0,
                    "selected_version",
                ),
                and_then(
                    capabilities_result(texts(m.enabled_capabilities@)),
                    and_then(
                        exact_result(m.echoed_client_nonce@.len(), 32, "echoed_client_nonce"),
                        and_then(
                            exact_result(m.server_nonce@.len(), 32, "server_nonce"),
                            and_then(
                                exact_result(m.ephemeral_session_id@.len(), 16, "ephemeral_session_id"),
                                and_then(
                                    field_check(frame_limit_ok(m.maximum_frame_size), "maximum_frame_size"),
                                    and_then(
                                        field_check(
                                            m.maximum_concurrent_streams != 0
                                                && m.maximum_concurrent_streams <= MAX_CONCURRENT_STREAMS,
                                            "maximum_concurrent_streams",
                                        ),
                                        and_then(
                                            field_check(
                                                connection_window_ok(m.initial_connection_receive_window),
                                                "connection_window",
                                            ),
                                            and_then(
                                                field_check(
                                                    stream_window_ok(m.initial_stream_receive_window),
                                                    "stream_window",
                                                ),
                                                and_then(
                                                    field_check(
                                                        m.idle_stream_timeout_ms != 0
                                                            && m.idle_stream_timeout_ms <= 3600000,
                                                        "idle_stream_timeout_ms",
                                                    ),
                                                    field_check(
                                                        m.session_ttl_seconds != 0
                                                            && m.session_ttl_seconds <= MAX_SESSION_TTL_SECONDS,
                                                        "session_ttl_seconds",
                                                    ),
                                                ),
                                            ),
                                        ),
                                    ),
                                ),
                            ),
                        ),
                    ),
                ),
            ),
        },
    }
}

pub fn validate_server_hello(message: &ServerHello) -> (result: Result<(), ProtocolError>)
    ensures
        result == server_hello_result(*message),
{
    let range = match &message.supported_versions {
        Some(range) => range,
        None => return Err(ProtocolError::InvalidField("supported_versions")),
    };
    validate_version_range(range)?;
    match message.selected_version {
        Some(v) => {
            if v.major == 0 {
                return Err(ProtocolError::InvalidField("selected_version"));
            }
        },
        None => return Err(ProtocolError::InvalidField("selected_version")),
    }
    validate_capabilities(message.enabled_capabilities.as_slice())?;
    exact_length(message.echoed_client_nonce.as_slice(), 32, "echoed_client_nonce")?;
    exact_length(message.server_nonce.as_slice(), 32, "server_nonce")?;
    exact_length(message.ephemeral_session_id.as_slice(), 16, "ephemeral_session_id")?;
    check_frame_limit(message.maximum_frame_size)?;
    if message.maximum_concurrent_streams == 0 || message.maximum_concurrent_streams as usize
        > MAX_CONCURRENT_STREAMS {
        return Err(ProtocolError::InvalidField("maximum_concurrent_streams"));
    }
    check_connection_window(message.initial_connection_receive_window)?;
    check_stream_window(message.initial_stream_receive_window)?;
    if message.idle_stream_timeout_ms == 0 || message.idle_stream_timeout_ms > 3600000 {
        return Err(ProtocolError::InvalidField("idle_stream_timeout_ms"));
    }
    if message.session_ttl_seconds == 0 || message.session_ttl_seconds > MAX_SESSION_TTL_SECONDS {
        return Err(ProtocolError::InvalidField("session_ttl_seconds"));
    }
    Ok(())
}

pub open spec fn authenticate_result(m: Authenticate) -> Result<(), ProtocolError> {
    and_then(
        range_result(m.anonymous_capability_token@.len(), 1, MAX_CAPABILITY_TOKEN as nat, "token"),
        and_then(
            field_check(m.proof_of_possession@.len() <= MAX_PROOF_OF_POSSESSION, "proof_of_possession"),
            exact_result(m.session_nonce_binding@.len(), 32, "session_nonce_binding"),
        ),
    )
}

fn validate_authenticate(m: &Authenticate) -> (result: Result<(), ProtocolError>)
    ensures
        result == authenticate_result(*m),
{
    bounded_range(m.anonymous_capability_token.as_slice(), 1, MAX_CAPABILITY_TOKEN, "token")?;
    if m.proof_of_possession.len() > MAX_PROOF_OF_POSSESSION {
        return Err(ProtocolError::InvalidField("proof_of_possession"));
    }
    exact_length(m.session_nonce_binding.as_slice(), 32, "session_nonce_binding")
}

pub open spec fn authentication_result_result(m: AuthenticationResult) -> Result<(), ProtocolError> {
    and_then(
        capabilities_result(texts(m.granted_capabilities@)),
        field_check(
            if m.accepted {
                m.error_code == ErrorCode::Unspecified && m.expires_at_unix_seconds > 0
            } else {
                m.error_code != ErrorCode::Unspecified && m.expires_at_unix_seconds == 0
            },
            "authentication_result",
        ),
    )
}

fn validate_authentication_result(m: &AuthenticationResult) -> (result: Result<(), ProtocolError>)
    ensures
        result == authentication_result_result(*m),
{
    validate_capabilities(m.granted_capabilities.as_slice())?;
    let unspecified = m.error_code == ErrorCode::Unspecified;
    if m.accepted {
        if !unspecified || m.expires_at_unix_seconds <= 0 {
            return Err(ProtocolError::InvalidField("authentication_result"));
        }
    } else if unspecified || m.expires_at_unix_seconds != 0 {
        return Err(ProtocolError::InvalidField("authentication_result"));
    }
    Ok(())
}

pub open spec fn destination_result(value: Option<DestinationValue>) -> Result<(), ProtocolError> {
    match value {
        None => Err(ProtocolError::InvalidField("destination")),
        Some(DestinationValue::Hostname(h)) => hostname_result(text_bytes(h)),
        Some(DestinationValue::IpAddress(a)) => field_check(
            a@.len() == 4 || a@.len() == 16,
            "ip_address",
        ),
    }
}

pub open spec fn open_tcp_result(m: OpenTcpStream) -> Result<(), ProtocolError> {
    and_then(
        stream_id_result(m.stream_id),
        and_then(
            destination_result(
                match m.destination {
                    Some(d) => d.value,
                    None => None,
                },
            ),
            and_then(
                field_check(1 <= m.destination_port <= 65535, "destination_port"),
                and_then(
                    field_check(timeout_ok(m.timeout_ms), "timeout_ms"),
                    and_then(
                        field_check(m.policy_flags < 3, "policy_flags"),
                        field_check(stream_window_ok(m.initial_receive_window), "stream_window"),
                    ),
                ),
            ),
        ),
    )
}

fn validate_ip_address(address: &[u8]) -> (result: Result<(), ProtocolError>)
    ensures
        result == field_check(address@.len() == 4 || address@.len() == 16, "ip_address"),
{
    if address.len() != 4 && address.len() != 16 {
        return Err(ProtocolError::InvalidField("ip_address"));
    }
    Ok(())
}

fn validate_open_tcp(m: &OpenTcpStream) -> (result: Result<(), ProtocolError>)
    ensures
        result == open_tcp_result(*m),
{
    validate_stream_id(m.stream_id)?;
    let value = match &m.destination {
        Some(d) => &d.value,
        None => return Err(ProtocolError::InvalidField("destination")),
    };
    match value {
        Some(DestinationValue::Hostname(hostname)) => validate_hostname(hostname.as_str())?,
        Some(DestinationValue::IpAddress(address)) => validate_ip_address(address.as_slice())?,
        None => return Err(ProtocolError::InvalidField("destination")),
    }
    if m.destination_port == 0 || m.destination_port > 65535 {
        return Err(ProtocolError::InvalidField("destination_port"));
    }
    check_timeout(m.timeout_ms)?;
    if m.policy_flags >= 3 {
        return Err(ProtocolError::InvalidField("policy_flags"));
    }
    check_stream_window(m.initial_receive_window)
}

pub open spec fn resolve_result_result(m: ResolveResult) -> Result<(), ProtocolError> {
    and_then(
        stream_id_result(m.query_id),
        if m.ip_addresses@.len() > MAX_RESOLVE_ADDRESSES {
            Err(ProtocolError::InvalidField("resolve_addresses"))
        } else if m.error_code == ErrorCode::Unspecified {
            if m.ip_addresses@.len() == 0 || m.minimum_ttl_seconds == 0 {
                Err(ProtocolError::InvalidField("resolve_result"))
            } else if exists|i: int|
                0 <= i < m.ip_addresses@.len() && !(#[trigger] m.ip_addresses@[i]@.len() == 4
                    || m.ip_addresses@[i]@.len() == 16) {
                Err(ProtocolError::InvalidField("ip_address"))
            } else {
                Ok(())
            }
        } else if m.ip_addresses@.len() != 0 || m.minimum_ttl_seconds != 0 {
            Err(ProtocolError::InvalidField("resolve_result"))
        } else {
            Ok(())
        },
    )
}

fn validate_resolve_result(m: &ResolveResult) -> (result: Result<(), ProtocolError>)
    ensures
        result == resolve_result_result(*m),
{
    validate_stream_id(m.query_id)?;
    if m.ip_addresses.len() > MAX_RESOLVE_ADDRESSES {
        return Err(ProtocolError::InvalidField("resolve_addresses"));
    }
    if m.error_code == ErrorCode::Unspecified {
        if m.ip_addresses.len() == 0 || m.minimum_ttl_seconds == 0 {
            return Err(ProtocolError::InvalidField("resolve_result"));
        }
        let mut i: usize = 0;
        while i < m.ip_addresses.len()
            invariant
                i <= m.ip_addresses@.len(),
                stream_id_is_valid(m.query_id),
                m.ip_addresses@.len() <= MAX_RESOLVE_ADDRESSES,
                m.error_code == ErrorCode::Unspecified,
                m.ip_addresses@.len() > 0,
                m.minimum_ttl_seconds != 0,
                forall|k: int| 0 <= k < i ==> (#[trigger] m.ip_addresses@[k]@.len() == 4
                    || m.ip_addresses@[k]@.len() == 16),
            decreases m.ip_addresses@.len() - i,
        {
            let a = m.ip_addresses[i].as_slice();
            if a.len() != 4 && a.len() != 16 {
                proof {
                    assert(!(m.ip_addresses@[i as int]@.len() == 4 || m.ip_addresses@[i as int]@.len() == 16));
                }
                return Err(ProtocolError::InvalidField("ip_address"));
            }
            i = i + 1;
        }
    } else if m.ip_addresses.len() != 0 || m.minimum_ttl_seconds != 0 {
        return Err(ProtocolError::InvalidField("resolve_result"));
    }
    Ok(())
}

pub open spec fn rotate_session_result(m: RotateSession) -> Result<(), ProtocolError> {
    and_then(
        exact_result(m.rotation_nonce@.len(), 16, "rotation_nonce"),
        and_then(
            field_check(m.reason != RotationReason::Unspecified, "rotation_reason"),
            field_check(drain_timeout_ok(m.drain_timeout_ms), "drain_timeout_ms"),
        ),
    )
}

fn validate_rotate_session(m: &RotateSession) -> (result: Result<(), ProtocolError>)
    ensures
        result == rotate_session_result(*m),
{
    exact_length(m.rotation_nonce.as_slice(), 16, "rotation_nonce")?;
    if m.reason == RotationReason::Unspecified {
        return Err(ProtocolError::InvalidField("rotation_reason"));
    }
    check_drain_timeout(m.drain_timeout_ms)
}

pub open spec fn session_rotated_result(m: SessionRotated) -> Result<(), ProtocolError> {
    and_then(
        exact_result(m.rotation_nonce@.len(), 16, "rotation_nonce"),
        field_check(
            if m.accepted {
                m.error_code == ErrorCode::Unspecified && m.replacement_transport_required
            } else {
                m.error_code != ErrorCode::Unspecified && !m.replacement_transport_required
            },
            "session_rotated",
        ),
    )
}

fn validate_session_rotated(m: &SessionRotated) -> (result: Result<(), ProtocolError>)
    ensures
        result == session_rotated_result(*m),
{
    exact_length(m.rotation_nonce.as_slice(), 16, "rotation_nonce")?;
    let unspecified = m.error_code == ErrorCode::Unspecified;
    if m.accepted {
        if !unspecified || !m.replacement_transport_required {
            return Err(ProtocolError::InvalidField("session_rotated"));
        }
    } else if unspecified || m.replacement_transport_required {
        return Err(ProtocolError::InvalidField("session_rotated"));
    }
    Ok(())
}

pub open spec fn error_message_result(m: Error) -> Result<(), ProtocolError> {
    and_then(
        field_check(m.code != ErrorCode::Unspecified, "error_code"),
        and_then(
            field_check(!(m.fatal && m.stream_id != 0), "fatal_error_scope"),
            and_then(
                if m.stream_id != 0 {
                    stream_id_result(m.stream_id)
                } else {
                    Ok(())
                },
                and_then(
                    field_check(m.retry_after_ms <= MAX_TIMEOUT_MS, "retry_after_ms"),
                    exact_result(m.correlation_id@.len(), 16, "correlation_id"),
                ),
            ),
        ),
    )
}

fn validate_error(m: &Error) -> (result: Result<(), ProtocolError>)
    ensures
        result == error_message_result(*m),
{
    if m.code == ErrorCode::Unspecified {
        return Err(ProtocolError::InvalidField("error_code"));
    }
    if m.fatal && m.stream_id != 0 {
        return Err(ProtocolError::InvalidField("fatal_error_scope"));
    }
    if m.stream_id != 0 {
        validate_stream_id(m.stream_id)?;
    }
    if m.retry_after_ms > MAX_TIMEOUT_MS {
        return Err(ProtocolError::InvalidField("retry_after_ms"));
    }
    exact_length(m.correlation_id.as_slice(), 16, "correlation_id")
}

/// The outcome of validating one body on its own.
pub open spec fn body_result(body: Body) -> Result<(), ProtocolError> {
    match body {
        Body::ClientHello(m) => client_hello_result(m),
        Body::ServerHello(m) => server_hello_result(m),
        Body::Authenticate(m) => authenticate_result(m),
        Body::AuthenticationResult(m) => authentication_result_result(m),
        Body::OpenTcpStream(m) => open_tcp_result(m),
        Body::TcpStreamOpened(m) => and_then(
            stream_id_result(m.stream_id),
            field_check(stream_window_ok(m.initial_receive_window), "stream_window"),
        ),
        Body::TcpStreamRejected(m) => and_then(
            stream_id_result(m.stream_id),
            field_check(m.error_code != ErrorCode::Unspecified, "stream_error_code"),
        ),
        Body::Data(m) => and_then(
            stream_id_result(m.stream_id),
            range_result(m.payload@.len(), 1, MAX_DATA_PAYLOAD as nat, "data_payload"),
        ),
        Body::WindowUpdate(m) => and_then(
            if m.stream_id != 0 {
                stream_id_result(m.stream_id)
            } else {
                Ok(())
            },
            field_check(m.credit != 0, "window_credit"),
        ),
        Body::HalfClose(m) => stream_id_result(m.stream_id),
        Body::CloseStream(m) => and_then(
            stream_id_result(m.stream_id),
            field_check(m.code != CloseCode::Unspecified, "close_code"),
        ),
        Body::ResolveDomain(m) => and_then(
            stream_id_result(m.query_id),
            and_then(
                hostname_result(text_bytes(m.hostname)),
                and_then(
                    field_check(m.address_family != AddressFamily::Unspecified, "address_family"),
                    field_check(timeout_ok(m.timeout_ms), "timeout_ms"),
                ),
            ),
        ),
        Body::ResolveResult(m) => resolve_result_result(m),
        Body::RotateSession(m) => rotate_session_result(m),
        Body::SessionRotated(m) => session_rotated_result(m),
        Body::Ping(m) => range_result(m.nonce@.len(), 8, 32, "ping_nonce"),
        Body::Pong(m) => range_result(m.nonce@.len(), 8, 32, "pong_nonce"),
        Body::Error(m) => error_message_result(m),
        Body::GoAway(m) => and_then(
            if m.last_accepted_stream_id != 0 {
                stream_id_result(m.last_accepted_stream_id)
            } else {
                Ok(())
            },
            field_check(drain_timeout_ok(m.drain_timeout_ms), "drain_timeout_ms"),
        ),
    }
}

fn validate_stream_opened(m: &TcpStreamOpened) -> (result: Result<(), ProtocolError>)
    ensures
        result == body_result(Body::TcpStreamOpened(*m)),
{
    validate_stream_id(m.stream_id)?;
    check_stream_window(m.initial_receive_window)
}

fn validate_stream_rejected(m: &TcpStreamRejected) -> (result: Result<(), ProtocolError>)
    ensures
        result == body_result(Body::TcpStreamRejected(*m)),
{
    validate_stream_id(m.stream_id)?;
    if m.error_code == ErrorCode::Unspecified {
        return Err(ProtocolError::InvalidField("stream_error_code"));
    }
    Ok(())
}

fn validate_data(m: &Data) -> (result: Result<(), ProtocolError>)
    ensures
        result == body_result(Body::Data(*m)),
{
    validate_stream_id(m.stream_id)?;
    bounded_range(m.payload.as_slice(), 1, MAX_DATA_PAYLOAD, "data_payload")
}

fn validate_window_update(m: &WindowUpdate) -> (result: Result<(), ProtocolError>)
    ensures
        result == body_result(Body::WindowUpdate(*m)),
{
    if m.stream_id != 0 {
        validate_stream_id(m.stream_id)?;
    }
    if m.credit == 0 {
        return Err(ProtocolError::InvalidField("window_credit"));
    }
    Ok(())
}

fn validate_close_stream(m: &CloseStream) -> (result: Result<(), ProtocolError>)
    ensures
        result == body_result(Body::CloseStream(*m)),
{
    validate_stream_id(m.stream_id)?;
    if m.code == CloseCode::Unspecified {
        return Err(ProtocolError::InvalidField("close_code"));
    }
    Ok(())
}

fn validate_resolve_domain(m: &ResolveDomain) -> (result: Result<(), ProtocolError>)
    ensures
        result == body_result(Body::ResolveDomain(*m)),
{
    validate_stream_id(m.query_id)?;
    validate_hostname(m.hostname.as_str())?;
    if m.address_family == AddressFamily::Unspecified {
        return Err(ProtocolError::InvalidField("address_family"));
    }
    check_timeout(m.timeout_ms)
}

fn validate_go_away(m: &GoAway) -> (result: Result<(), ProtocolError>)
    ensures
        result == body_result(Body::GoAway(*m)),
{
    if m.last_accepted_stream_id != 0 {
        validate_stream_id(m.last_accepted_stream_id)?;
    }
    check_drain_timeout(m.drain_timeout_ms)
}

fn validate_ping(m: &Ping) -> (result: Result<(), ProtocolError>)
    ensures
        result == body_result(Body::Ping(*m)),
{
    bounded_range(m.nonce.as_slice(), 8, 32, "ping_nonce")
}

fn validate_pong(m: &Pong) -> (result: Result<(), ProtocolError>)
    ensures
        result == body_result(Body::Pong(*m)),
{
    bounded_range(m.nonce.as_slice(), 8, 32, "pong_nonce")
}

/// Validates one body on its own.
pub fn validate_body(body: &Body) -> (result: Result<(), ProtocolError>)
    ensures
        result == body_result(*body),
{
    match body {
        Body::ServerHello(m) => validate_server_hello(m),
        Body::ClientHello(m) => validate_client_hello(m),
        Body::Authenticate(m) => validate_authenticate(m),
        Body::AuthenticationResult(m) => validate_authentication_result(m),
        Body::OpenTcpStream(m) => validate_open_tcp(m),
        Body::TcpStreamOpened(m) => validate_stream_opened(m),
        Body::TcpStreamRejected(m) => validate_stream_rejected(m),
        Body::Data(m) => validate_data(m),
        Body::WindowUpdate(m) => validate_window_update(m),
        Body::HalfClose(m) => validate_stream_id(m.stream_id),
        Body::CloseStream(m) => validate_close_stream(m),
        Body::ResolveDomain(m) => validate_resolve_domain(m),
        Body::ResolveResult(m) => validate_resolve_result(m),
        Body::RotateSession(m) => validate_rotate_session(m),
        Body::SessionRotated(m) => validate_session_rotated(m),
        Body::Ping(m) => validate_ping(m),
        Body::Pong(m) => validate_pong(m),
        Body::Error(m) => validate_error(m),
        Body::GoAway(m) => validate_go_away(m),
    }
}

/// Every critical extension of a frame is non-zero, enabled, and listed once.
pub open spec fn extensions_ok(ids: Seq<u32>, enabled: Seq<u32>) -> bool {
    &&& forall|i: int| 0 <= i < ids.len() ==> #[trigger] ids[i] != 0 && enabled.contains(ids[i])
    &&& forall|i: int, j: int| 0 <= i < j < ids.len() ==> #[trigger] ids[i] != #[trigger] ids[j]
}

/// The outcome of `validate_frame`.
pub open spec fn frame_result(frame: GatewayFrame, enabled: Seq<u32>) -> Result<(), ProtocolError> {
    if frame.sequence == 0 {
        Err(ProtocolError::InvalidSequence)
    } else if !(frame.version matches Some(v) && v.major != 0) {
        Err(ProtocolError::InvalidField("frame_version"))
    } else if !extensions_ok(frame.critical_extension_ids@, enabled) {
        Err(ProtocolError::ProtocolViolation("unknown or duplicate critical extension"))
    } else {
        match frame.body {
            None => Err(ProtocolError::MissingBody),
            Some(body) => body_result(body),
        }
    }
}

fn slice_contains(values: &[u32], x: u32) -> (found: bool)
    ensures
        found == values@.contains(x),
{
    let mut i: usize = 0;
    while i < values.len()
        invariant
            i <= values@.len(),
            forall|k: int| 0 <= k < i ==> values@[k] != x,
        decreases values@.len() - i,
    {
        if values[i] == x {
            proof {
                assert(values@[i as int] == x);
            }
            return true;
        }
        i = i + 1;
    }
    false
}

pub fn validate_frame(frame: &GatewayFrame, enabled_critical_extensions: &[u32]) -> (result: Result<
    (),
    ProtocolError,
>)
    ensures
        result == frame_result(*frame, enabled_critical_extensions@),
{
    if frame.sequence == 0 {
        return Err(ProtocolError::InvalidSequence);
    }
    match frame.version {
        Some(v) => {
            if v.major == 0 {
                return Err(ProtocolError::InvalidField("frame_version"));
            }
        },
        None => return Err(ProtocolError::InvalidField("frame_version")),
    }
    let ids = frame.critical_extension_ids.as_slice();
    let mut i: usize = 0;
    while i < ids.len()
        invariant
            i <= ids@.len(),
            ids@ == frame.critical_extension_ids@,
            frame.sequence != 0,
            frame.version matches Some(v) && v.major != 0,
            extensions_ok(ids@.take(i as int), enabled_critical_extensions@),
        decreases ids@.len() - i,
    {
        let id = ids[i];
        if id == 0 || !slice_contains(enabled_critical_extensions, id) || slice_contains(
            ids.split_at(i).0,
            id,
        ) {
            proof {
                assert(ids@[i as int] == id);
                if id != 0 && enabled_critical_extensions@.contains(id) {
                    let j = choose|j: int| 0 <= j < i && ids@.take(i as int)[j] == id;
                    assert(ids@[j] == ids@[i as int]);
                    assert(!(forall|a: int, b: int| 0 <= a < b < ids@.len() ==> #[trigger] ids@[a] != #[trigger] ids@[b]));
                } else {
                    assert(!(ids@[i as int] != 0 && enabled_critical_extensions@.contains(ids@[i as int])));
                }
                assert(!extensions_ok(frame.critical_extension_ids@, enabled_critical_extensions@));
            }
            return Err(ProtocolError::ProtocolViolation("unknown or duplicate critical extension"));
        }
        proof {
            let t = ids@.take(i + 1);
            assert(t.drop_last() =~= ids@.take(i as int));
            assert forall|a: int, b: int| 0 <= a < b < t.len() implies #[trigger] t[a]
                != #[trigger] t[b] by {
                if b == i {
                    assert(ids@.take(i as int)[a] == t[a]);
                    assert(!ids@.take(i as int).contains(id));
                } else {
                    assert(ids@.take(i as int)[a] == t[a]);
                    assert(ids@.take(i as int)[b] == t[b]);
                }
            }
            assert forall|a: int| 0 <= a < t.len() implies #[trigger] t[a] != 0
                && enabled_critical_extensions@.contains(t[a]) by {
                if a < i {
                    assert(ids@.take(i as int)[a] == t[a]);
                }
            }
        }
        i = i + 1;
    }
    proof {
        assert(ids@.take(ids@.len() as int) =~= ids@);
    }
    match &frame.body {
        None => Err(ProtocolError::MissingBody),
        Some(body) => validate_body(body),
    }
}

/// A desired country is empty or exactly two upper-case ASCII letters, any
/// two of `A` to `Z`; a lower-case letter, another byte, or another length is
/// refused.
pub proof fn lemma_country_letters(x: u8, y: u8, other: Seq<u8>)
    ensures
        country_ok(Seq::<u8>::empty()),
        (65 <= x && x <= 90 && 65 <= y && y <= 90) <==> country_ok(seq![x, y]),
        97 <= x && x <= 122 ==> !country_ok(seq![x, y]),
        other.len() != 0 && other.len() != 2 ==> !country_ok(other),
{
    let pair = seq![x, y];
    assert(pair.len() == 2 && pair[0] == x && pair[1] == y);
}

/// Replacing the country of an accepted hello with any two upper-case ASCII
/// letters keeps it accepted: the country check refuses no such pair.
pub proof fn lemma_any_upper_case_country_accepted(m: ClientHello, country: String, x: u8, y: u8)
    requires
        client_hello_result(m) is Ok,
        text_bytes(country) == seq![x, y],
        65 <= x && x <= 90,
        65 <= y && y <= 90,
    ensures
        client_hello_result(ClientHello { desired_country: country, ..m }) is Ok,
{
    lemma_country_letters(x, y, Seq::<u8>::empty());
}

} // verus!
