//! The exit daemon's session rules: envelope and hello checks, the
//! authentication steps, and the per-session stream table that decides what
//! each client frame and each egress event does.
use vstd::prelude::*;
use vstd::utf8::{encode_utf8, is_ascii_chars};

use crate::crypto::fill_random;
use crate::daemon::config::LimitConfig;
use crate::daemon::error::{GatewayError, GatewayErrorCode};
use crate::daemon::wire::{
    AuthenticateRequest, AuthenticateResponse, Body, ClientHello, ErrorStatus, GatewayFrame,
    ProtocolVersion, ServerHello, UnixTimestamp,
};
use crate::gateway::varint::{
    lemma_pow128_values, lemma_pow_mono, lemma_varint_value_bounds, pow128, varint_value,
    varint_value_of, encode_u32_varint, varint_encoding,
};
use crate::gateway::framing::copy_bytes;
use crate::text::bytes_equal;

verus! {

pub const PROTOCOL_MAJOR: u32 = 1;

pub const PROTOCOL_MINOR: u32 = 0;

/// The protocol version this daemon speaks.
pub open spec fn is_current_version(version: Option<ProtocolVersion>) -> bool {
    version matches Some(v) && v.major == PROTOCOL_MAJOR && v.minor == PROTOCOL_MINOR
}

/// A frame belongs to the session and arrives in order: the current version,
/// the expected sequence number and the session's identifier.
pub open spec fn envelope_valid(frame: GatewayFrame, expected_sequence: u64, session_id: Seq<u8>) -> bool {
    &&& is_current_version(frame.version)
    &&& frame.sequence == expected_sequence
    &&& frame.session_id@ == session_id
}

/// Checks a frame's version, sequence number and session identifier.
pub fn validate_envelope(frame: &GatewayFrame, expected_sequence: u64, session_id: &[u8]) -> (result: Result<(), GatewayError>)
    ensures
        result is Ok <==> envelope_valid(*frame, expected_sequence, session_id@),
        result matches Err(e) ==> e.code == GatewayErrorCode::ProtocolViolation,
{
    let version_ok = match &frame.version {
        Some(v) => v.major == PROTOCOL_MAJOR && v.minor == PROTOCOL_MINOR,
        None => false,
    };
    if !version_ok || frame.sequence != expected_sequence || !bytes_equal(frame.session_id.as_slice(), session_id) {
        return Err(GatewayError::new(GatewayErrorCode::ProtocolViolation));
    }
    Ok(())
}

pub open spec fn tcp_connect_feature() -> Seq<u8> {
    seq![116u8, 99, 112, 45, 99, 111, 110, 110, 101, 99, 116, 45, 118, 49]
}

pub open spec fn dns_wire_feature() -> Seq<u8> {
    seq![100u8, 110, 115, 45, 119, 105, 114, 101, 45, 118, 49]
}

pub open spec fn flow_control_feature() -> Seq<u8> {
    seq![102u8, 108, 111, 119, 45, 99, 111, 110, 116, 114, 111, 108, 45, 118, 49]
}

pub open spec fn required_marker() -> Seq<u8> {
    seq![114u8, 101, 113, 117, 105, 114, 101, 100, 58]
}

/// The features this daemon offers: "tcp-connect-v1", "dns-wire-v1" and
/// "flow-control-v1", as bytes.
pub open spec fn supported_feature(name: Seq<u8>) -> bool {
    name == tcp_connect_feature() || name == dns_wire_feature() || name == flow_control_feature()
}

fn tcp_connect_bytes() -> (bytes: Vec<u8>)
    ensures
        bytes@ == tcp_connect_feature(),
{
    let bytes = vec![116u8, 99, 112, 45, 99, 111, 110, 110, 101, 99, 116, 45, 118, 49];
    assert(bytes@ =~= tcp_connect_feature());
    bytes
}

fn dns_wire_bytes() -> (bytes: Vec<u8>)
    ensures
        bytes@ == dns_wire_feature(),
{
    let bytes = vec![100u8, 110, 115, 45, 119, 105, 114, 101, 45, 118, 49];
    assert(bytes@ =~= dns_wire_feature());
    bytes
}

fn flow_control_bytes() -> (bytes: Vec<u8>)
    ensures
        bytes@ == flow_control_feature(),
{
    let bytes = vec![102u8, 108, 111, 119, 45, 99, 111, 110, 116, 114, 111, 108, 45, 118, 49];
    assert(bytes@ =~= flow_control_feature());
    bytes
}

fn required_marker_bytes() -> (bytes: Vec<u8>)
    ensures
        bytes@ == required_marker(),
{
    let bytes = vec![114u8, 101, 113, 117, 105, 114, 101, 100, 58];
    assert(bytes@ =~= required_marker());
    bytes
}

/// Whether a feature name, as bytes, is one this daemon offers.
pub fn is_supported_feature(name: &[u8]) -> (supported: bool)
    ensures
        supported == supported_feature(name@),
{
    let tcp = tcp_connect_bytes();
    let dns = dns_wire_bytes();
    let flow = flow_control_bytes();
    bytes_equal(name, tcp.as_slice()) || bytes_equal(name, dns.as_slice()) || bytes_equal(
        name,
        flow.as_slice(),
    )
}

/// A requested feature is non-empty ASCII of at most 64 bytes.
pub open spec fn feature_well_formed(feature: Seq<char>) -> bool {
    &&& feature.len() > 0
    &&& encode_utf8(feature).len() <= 64
    &&& is_ascii_chars(feature)
}

/// A requested feature that starts with "required:" names, after that marker,
/// a feature this daemon does not offer.
pub open spec fn requires_unsupported(feature: Seq<char>) -> bool {
    let bytes = encode_utf8(feature);
    &&& bytes.len() >= 9
    &&& bytes.subrange(0, 9) == required_marker()
    &&& !supported_feature(bytes.subrange(9, bytes.len() as int))
}

/// Whether a client hello is compatible: a version range from 1.0 within
/// major 1, a 16 to 32 byte nonce, at most 32 well-formed features, and no
/// required feature that the daemon lacks.
pub open spec fn client_hello_compatible(hello: ClientHello) -> bool {
    &&& hello.supported_versions matches Some(range)
    &&& range.minimum matches Some(minimum)
    &&& range.maximum matches Some(maximum)
    &&& minimum.major == PROTOCOL_MAJOR
    &&& maximum.major == PROTOCOL_MAJOR
    &&& minimum.minor <= PROTOCOL_MINOR
    &&& minimum.minor <= maximum.minor
    &&& 16 <= hello.client_nonce@.len() <= 32
    &&& hello.requested_features@.len() <= 32
    &&& forall|i: int|
        0 <= i < hello.requested_features@.len() ==> feature_well_formed(
            #[trigger] hello.requested_features@[i]@,
        )
    &&& forall|i: int|
        0 <= i < hello.requested_features@.len() ==> !requires_unsupported(
            #[trigger] hello.requested_features@[i]@,
        )
}

/// The outcome of checking a client hello.
pub open spec fn client_hello_outcome(hello: ClientHello) -> Result<(), GatewayError> {
    if !client_hello_compatible(hello) {
        Err(GatewayError { code: GatewayErrorCode::ProtocolIncompatible })
    } else if !(1 <= hello.route_mode <= 3) {
        Err(GatewayError { code: GatewayErrorCode::ProtocolViolation })
    } else {
        Ok(())
    }
}

/// Whether the version range of a hello is acceptable.
fn versions_compatible(hello: &ClientHello) -> (ok: bool)
    ensures
        ok <==> {
            &&& hello.supported_versions matches Some(range)
            &&& range.minimum matches Some(minimum)
            &&& range.maximum matches Some(maximum)
            &&& minimum.major == PROTOCOL_MAJOR
            &&& maximum.major == PROTOCOL_MAJOR
            &&& minimum.minor <= PROTOCOL_MINOR
            &&& minimum.minor <= maximum.minor
        },
{
    match &hello.supported_versions {
        Some(range) => match (&range.minimum, &range.maximum) {
            (Some(minimum), Some(maximum)) => minimum.major == PROTOCOL_MAJOR && maximum.major
                == PROTOCOL_MAJOR && minimum.minor <= PROTOCOL_MINOR && minimum.minor
                <= maximum.minor,
            _ => false,
        },
        None => false,
    }
}

/// Whether one requested feature is well formed and, if it is marked
/// required, offered by the daemon.
fn feature_acceptable(feature: &String) -> (ok: bool)
    ensures
        ok <==> feature_well_formed(feature@) && !requires_unsupported(feature@),
{
    let text = feature.as_str();
    let bytes = text.as_bytes();
    if bytes.len() == 0 || bytes.len() > 64 || !text.is_ascii() {
        proof {
            if feature@.len() > 0 {
                assert(encode_utf8(feature@).len() > 0) by {
                    vstd::utf8::encode_utf8_first_scalar(feature@);
                }
            }
        }
        return false;
    }
    proof {
        if feature@.len() == 0 {
            assert(encode_utf8(feature@) =~= Seq::<u8>::empty());
        }
    }
    let marker = required_marker_bytes();
    if bytes.len() >= 9 {
        let mut prefix: Vec<u8> = Vec::new();
        let mut i: usize = 0;
        while i < 9
            invariant
                i <= 9,
                9 <= bytes@.len(),
                prefix@ == bytes@.subrange(0, i as int),
            decreases 9 - i,
        {
            prefix.push(bytes[i]);
            proof {
                assert(bytes@.subrange(0, i + 1) =~= bytes@.subrange(0, i as int).push(bytes@[i as int]));
            }
            i = i + 1;
        }
        if bytes_equal(prefix.as_slice(), marker.as_slice()) {
            let mut rest: Vec<u8> = Vec::new();
            let mut j: usize = 9;
            while j < bytes.len()
                invariant
                    9 <= j <= bytes@.len(),
                    rest@ == bytes@.subrange(9, j as int),
                decreases bytes@.len() - j,
            {
                rest.push(bytes[j]);
                proof {
                    assert(bytes@.subrange(9, j + 1) =~= bytes@.subrange(9, j as int).push(bytes@[j as int]));
                }
                j = j + 1;
            }
            return is_supported_feature(rest.as_slice());
        }
    }
    true
}

/// Checks a client hello: `ProtocolIncompatible` when the versions, nonce or
/// features are unacceptable, then `ProtocolViolation` for a route mode
/// outside 1 to 3.
pub fn validate_client_hello(hello: &ClientHello) -> (result: Result<(), GatewayError>)
    ensures
        result == client_hello_outcome(*hello),
{
    if !versions_compatible(hello) || hello.client_nonce.len() < 16 || hello.client_nonce.len() > 32
        || hello.requested_features.len() > 32 {
        return Err(GatewayError::new(GatewayErrorCode::ProtocolIncompatible));
    }
    let mut i: usize = 0;
    while i < hello.requested_features.len()
        invariant
            i <= hello.requested_features@.len(),
            forall|k: int|
                0 <= k < i ==> feature_well_formed(#[trigger] hello.requested_features@[k]@)
                    && !requires_unsupported(hello.requested_features@[k]@),
        decreases hello.requested_features@.len() - i,
    {
        if !feature_acceptable(&hello.requested_features[i]) {
            return Err(GatewayError::new(GatewayErrorCode::ProtocolIncompatible));
        }
        i = i + 1;
    }
    if hello.route_mode < 1 || hello.route_mode > 3 {
        return Err(GatewayError::new(GatewayErrorCode::ProtocolViolation));
    }
    Ok(())
}

/// The version this daemon speaks.
pub fn version() -> (v: ProtocolVersion)
    ensures
        v.major == PROTOCOL_MAJOR && v.minor == PROTOCOL_MINOR,
{
    ProtocolVersion { major: PROTOCOL_MAJOR, minor: PROTOCOL_MINOR }
}

/// A frame of the session: the current version, the session's identifier,
/// the sequence number and the body.
pub fn session_frame(session_id: &[u8], sequence: u64, body: Body) -> (frame: GatewayFrame)
    ensures
        is_current_version(frame.version),
        frame.session_id@ == session_id@,
        frame.sequence == sequence,
        frame.body == Some(body),
{
    let mut id: Vec<u8> = Vec::new();
    let mut i: usize = 0;
    while i < session_id.len()
        invariant
            i <= session_id@.len(),
            id@ == session_id@.subrange(0, i as int),
        decreases session_id@.len() - i,
    {
        id.push(session_id[i]);
        proof {
            assert(session_id@.subrange(0, i + 1) =~= session_id@.subrange(0, i as int).push(session_id@[i as int]));
        }
        i = i + 1;
    }
    proof {
        assert(id@ =~= session_id@);
    }
    GatewayFrame { version: Some(version()), session_id: id, sequence, body: Some(body) }
}

/// The sequence number after `sequence`; running out of numbers is a
/// protocol violation.
pub fn next_sequence(sequence: u64) -> (next: Result<u64, GatewayError>)
    ensures
        sequence < u64::MAX ==> next == Ok::<u64, GatewayError>((sequence + 1) as u64),
        sequence == u64::MAX ==> next == Err::<u64, GatewayError>(
            GatewayError { code: GatewayErrorCode::ProtocolViolation },
        ),
{
    match sequence.checked_add(1) {
        Some(n) => Ok(n),
        None => Err(GatewayError::new(GatewayErrorCode::ProtocolViolation)),
    }
}

/// Errors that count as protocol violations when they end a session.
pub open spec fn is_protocol_failure(code: GatewayErrorCode) -> bool {
    code == GatewayErrorCode::ProtocolViolation || code == GatewayErrorCode::MessageTooLarge || code
        == GatewayErrorCode::ProtocolIncompatible
}

/// Whether an error that ends a session is counted and recorded as a
/// protocol rejection.
pub fn counts_as_protocol_failure(code: GatewayErrorCode) -> (counted: bool)
    ensures
        counted == is_protocol_failure(code),
{
    match code {
        GatewayErrorCode::ProtocolViolation | GatewayErrorCode::MessageTooLarge
        | GatewayErrorCode::ProtocolIncompatible => true,
        _ => false,
    }
}

/// A fresh random correlation identifier; a failing entropy source is an
/// internal error.
pub fn random_correlation_id() -> (id: Result<[u8; 16], GatewayError>)
    ensures
        id matches Err(e) ==> e.code == GatewayErrorCode::Internal,
{
    let mut value = [0u8;16];
    if !fill_random(&mut value) {
        return Err(GatewayError::new(GatewayErrorCode::Internal));
    }
    Ok(value)
}

/// The server hello a valid client hello gets, for a session identifier and
/// server nonce.
pub open spec fn server_hello_fits(hello: ServerHello, limits: LimitConfig, gateway_id: String, session_id: Seq<u8>) -> bool {
    &&& is_current_version(hello.selected_version)
    &&& hello.server_nonce@.len() == 16
    &&& hello.ephemeral_session_id@ == session_id
    &&& hello.enabled_features@.len() == 3
    &&& hello.enabled_features@[0]@ == "tcp-connect-v1"@
    &&& hello.enabled_features@[1]@ == "dns-wire-v1"@
    &&& hello.enabled_features@[2]@ == "flow-control-v1"@
    &&& hello.initial_stream_window == limits.initial_stream_window as u32
    &&& hello.max_concurrent_streams == limits.max_streams_per_session as u32
    &&& hello.session_ttl_seconds == limits.session_ttl_seconds as u32
    &&& hello.gateway_id == gateway_id
    &&& hello.session_role == 3
}

/// What an opening frame yields when the envelope and the hello pass: the
/// `ServerHello` frame for `session_id`, at sequence 1.
pub open spec fn hello_answered(
    response: GatewayFrame,
    session_id: Seq<u8>,
    limits: LimitConfig,
    gateway_id: String,
) -> bool {
    &&& session_id.len() == 16
    &&& is_current_version(response.version)
    &&& response.session_id@ == session_id
    &&& response.sequence == 1
    &&& response.body matches Some(Body::ServerHello(server_hello))
    &&& server_hello_fits(server_hello, limits, gateway_id, session_id)
}

/// The first step of a session with the given session identifier and server
/// nonce: the client's opening frame must carry sequence 1, no session
/// identifier and an acceptable `ClientHello`; the answer is the `ServerHello`
/// frame for `session_id`, returned with it.
pub fn accept_client_hello_with(
    frame: &GatewayFrame,
    limits: &LimitConfig,
    gateway_id: &String,
    session_id: [u8; 16],
    server_nonce: [u8; 16],
) -> (result: Result<(GatewayFrame, Vec<u8>), GatewayError>)
    ensures
        !envelope_valid(*frame, 1, Seq::<u8>::empty()) ==> result == Err::<(GatewayFrame, Vec<u8>), GatewayError>(
            GatewayError { code: GatewayErrorCode::ProtocolViolation },
        ),
        envelope_valid(*frame, 1, Seq::<u8>::empty()) && !(frame.body matches Some(Body::ClientHello(_)))
            ==> result == Err::<(GatewayFrame, Vec<u8>), GatewayError>(
            GatewayError { code: GatewayErrorCode::ProtocolViolation },
        ),
        frame.body matches Some(Body::ClientHello(hello)) ==> envelope_valid(*frame, 1, Seq::<u8>::empty())
            ==> match client_hello_outcome(hello) {
            Err(e) => result == Err::<(GatewayFrame, Vec<u8>), GatewayError>(e),
            Ok(_) => result matches Ok((response, id)) && {
                &&& id@ == session_id@
                &&& hello_answered(response, id@, *limits, *gateway_id)
                &&& response.body matches Some(Body::ServerHello(server_hello))
                    && server_hello.server_nonce@ == server_nonce@
            },
        },
{
    let empty: Vec<u8> = Vec::new();
    if let Err(e) = validate_envelope(frame, 1, empty.as_slice()) {
        proof {
            assert(empty@ =~= Seq::<u8>::empty());
        }
        return Err(e);
    }
    proof {
        assert(empty@ =~= Seq::<u8>::empty());
    }
    let hello = match &frame.body {
        Some(Body::ClientHello(hello)) => hello,
        _ => {
            return Err(GatewayError::new(GatewayErrorCode::ProtocolViolation));
        },
    };
    if let Err(e) = validate_client_hello(hello) {
        return Err(e);
    }
    let session_id = copy_bytes(&session_id);
    let mut features: Vec<String> = Vec::new();
    features.push("tcp-connect-v1".to_owned());
    features.push("dns-wire-v1".to_owned());
    features.push("flow-control-v1".to_owned());
    let ephemeral = session_id.clone();
    let server_hello = ServerHello {
        selected_version: Some(version()),
        server_nonce: copy_bytes(&server_nonce),
        ephemeral_session_id: ephemeral,
        enabled_features: features,
        initial_stream_window: limits.initial_stream_window as u32,
        max_concurrent_streams: limits.max_streams_per_session as u32,
        session_ttl_seconds: limits.session_ttl_seconds as u32,
        gateway_id: gateway_id.clone(),
        session_role: 3,
    };
    let response = session_frame(session_id.as_slice(), 1, Body::ServerHello(server_hello));
    Ok((response, session_id))
}

/// The first step of a session, as `accept_client_hello_with` does it for a
/// fresh random 16-byte session identifier and server nonce; both sides
/// continue at sequence 2. A failing entropy source is an internal error.
pub fn accept_client_hello(frame: &GatewayFrame, limits: &LimitConfig, gateway_id: &String) -> (result: Result<(GatewayFrame, Vec<u8>), GatewayError>)
    ensures
        !envelope_valid(*frame, 1, Seq::<u8>::empty()) ==> result == Err::<(GatewayFrame, Vec<u8>), GatewayError>(
            GatewayError { code: GatewayErrorCode::ProtocolViolation },
        ),
        envelope_valid(*frame, 1, Seq::<u8>::empty()) && !(frame.body matches Some(Body::ClientHello(_)))
            ==> result == Err::<(GatewayFrame, Vec<u8>), GatewayError>(
            GatewayError { code: GatewayErrorCode::ProtocolViolation },
        ),
        frame.body matches Some(Body::ClientHello(hello)) ==> envelope_valid(*frame, 1, Seq::<u8>::empty())
            ==> match client_hello_outcome(hello) {
            Err(e) => result == Err::<(GatewayFrame, Vec<u8>), GatewayError>(e),
            Ok(_) => match result {
                Ok((response, session_id)) => hello_answered(response, session_id@, *limits, *gateway_id),
                Err(e) => e.code == GatewayErrorCode::Internal,
            },
        },
{
    let empty: Vec<u8> = Vec::new();
    if let Err(e) = validate_envelope(frame, 1, empty.as_slice()) {
        proof {
            assert(empty@ =~= Seq::<u8>::empty());
        }
        return Err(e);
    }
    proof {
        assert(empty@ =~= Seq::<u8>::empty());
    }
    let hello = match &frame.body {
        Some(Body::ClientHello(hello)) => hello,
        _ => {
            return Err(GatewayError::new(GatewayErrorCode::ProtocolViolation));
        },
    };
    if let Err(e) = validate_client_hello(hello) {
        return Err(e);
    }
    let session_id = random_correlation_id()?;
    let server_nonce = random_correlation_id()?;
    accept_client_hello_with(frame, limits, gateway_id, session_id, server_nonce)
}

/// What the daemon does with an authentication frame before asking the
/// token verifier.
#[derive(Clone, Debug, PartialEq)]
pub enum AuthenticationStart {
    /// Ask the verifier about these credentials.
    Verify(AuthenticateRequest),
    /// Answer with a rejection carrying this error, without asking.
    Reject(GatewayError),
}

/// The credentials exceed what the daemon accepts: an empty or oversized
/// token, or an oversized proof.
pub open spec fn credentials_oversized(request: AuthenticateRequest, limits: LimitConfig) -> bool {
    request.capability_token@.len() == 0 || request.capability_token@.len() > limits.max_token_bytes
        || request.proof_of_possession@.len() > limits.max_proof_bytes
}

/// Checks the authentication frame: it must be the next frame of the session
/// (a protocol violation otherwise, as is running out of sequence numbers)
/// and carry an `AuthenticateRequest`. Oversized credentials are rejected
/// with `TokenRejected`; others go to the verifier.
pub fn begin_authentication(
    frame: &GatewayFrame,
    expected_sequence: u64,
    session_id: &[u8],
    limits: &LimitConfig,
) -> (result: Result<AuthenticationStart, GatewayError>)
    ensures
        !envelope_valid(*frame, expected_sequence, session_id@) || expected_sequence == u64::MAX
            || !(frame.body matches Some(Body::AuthenticateRequest(_))) ==> result == Err::<
            AuthenticationStart,
            GatewayError,
        >(GatewayError { code: GatewayErrorCode::ProtocolViolation }),
        frame.body matches Some(Body::AuthenticateRequest(request)) ==> envelope_valid(*frame, expected_sequence, session_id@)
            && expected_sequence < u64::MAX ==> if credentials_oversized(
            request,
            *limits,
        ) {
            result == Ok::<AuthenticationStart, GatewayError>(
                AuthenticationStart::Reject(GatewayError { code: GatewayErrorCode::TokenRejected }),
            )
        } else {
            (result matches Ok(AuthenticationStart::Verify(r)) && r.capability_token@
                == request.capability_token@ && r.proof_of_possession@ == request.proof_of_possession@)
        },
{
    if let Err(e) = validate_envelope(frame, expected_sequence, session_id) {
        return Err(e);
    }
    if let Err(e) = next_sequence(expected_sequence) {
        return Err(e);
    }
    let request = match &frame.body {
        Some(Body::AuthenticateRequest(request)) => request,
        _ => {
            return Err(GatewayError::new(GatewayErrorCode::ProtocolViolation));
        },
    };
    if request.capability_token.len() == 0 || request.capability_token.len() > limits.max_token_bytes
        || request.proof_of_possession.len() > limits.max_proof_bytes {
        return Ok(AuthenticationStart::Reject(GatewayError::new(GatewayErrorCode::TokenRejected)));
    }
    Ok(
        AuthenticationStart::Verify(
            AuthenticateRequest {
                capability_token: request.capability_token.clone(),
                proof_of_possession: request.proof_of_possession.clone(),
            },
        ),
    )
}

/// Whether some capability, as bytes, equals `name`.
pub open spec fn holds_capability(capabilities: Seq<String>, name: Seq<u8>) -> bool {
    exists|i: int| 0 <= i < capabilities.len() && encode_utf8(#[trigger] capabilities[i]@) == name
}

/// Whether the granted capabilities include `name`.
pub fn has_capability(capabilities: &Vec<String>, name: &[u8]) -> (held: bool)
    ensures
        held == holds_capability(capabilities@, name@),
{
    let mut i: usize = 0;
    while i < capabilities.len()
        invariant
            i <= capabilities@.len(),
            forall|j: int| 0 <= j < i ==> encode_utf8(#[trigger] capabilities@[j]@) != name@,
        decreases capabilities@.len() - i,
    {
        let bytes = capabilities[i].as_str().as_bytes();
        if bytes_equal(bytes, name) {
            return true;
        }
        i = i + 1;
    }
    false
}

/// A session may proceed only with "tcp-connect-v1" or "dns-wire-v1".
pub fn grants_service(capabilities: &Vec<String>) -> (granted: bool)
    ensures
        granted == (holds_capability(capabilities@, tcp_connect_feature()) || holds_capability(
            capabilities@,
            dns_wire_feature(),
        )),
{
    let tcp = tcp_connect_bytes();
    let dns = dns_wire_bytes();
    has_capability(capabilities, tcp.as_slice()) || has_capability(capabilities, dns.as_slice())
}

/// A Unix time in seconds as a wire timestamp; times beyond `i64` are
/// rejected as `TokenRejected`.
pub fn unix_timestamp(seconds: u64) -> (timestamp: Result<UnixTimestamp, GatewayError>)
    ensures
        seconds <= i64::MAX ==> timestamp == Ok::<UnixTimestamp, GatewayError>(
            UnixTimestamp { seconds: seconds as i64 },
        ),
        seconds > i64::MAX ==> timestamp == Err::<UnixTimestamp, GatewayError>(
            GatewayError { code: GatewayErrorCode::TokenRejected },
        ),
{
    if seconds > 9223372036854775807u64 {
        return Err(GatewayError::new(GatewayErrorCode::TokenRejected));
    }
    Ok(UnixTimestamp { seconds: seconds as i64 })
}

/// The answer to a successful authentication: accepted, with the expiry and
/// the granted capabilities, at `sequence`.
pub fn authentication_accepted(
    session_id: &[u8],
    sequence: u64,
    expires_at_unix: u64,
    capabilities: &Vec<String>,
) -> (frame: Result<GatewayFrame, GatewayError>)
    ensures
        expires_at_unix > i64::MAX ==> frame == Err::<GatewayFrame, GatewayError>(
            GatewayError { code: GatewayErrorCode::TokenRejected },
        ),
        expires_at_unix <= i64::MAX ==> (frame matches Ok(f) && {
            &&& is_current_version(f.version)
            &&& f.session_id@ == session_id@
            &&& f.sequence == sequence
            &&& f.body matches Some(Body::AuthenticateResponse(r))
            &&& r.accepted
            &&& r.expires_at == Some(UnixTimestamp { seconds: expires_at_unix as i64 })
            &&& r.granted_capabilities@ == capabilities@
            &&& r.error is None
        }),
{
    let expires_at = match unix_timestamp(expires_at_unix) {
        Ok(t) => t,
        Err(e) => {
            return Err(e);
        },
    };
    let mut granted: Vec<String> = Vec::new();
    let mut i: usize = 0;
    while i < capabilities.len()
        invariant
            i <= capabilities@.len(),
            granted@ == capabilities@.subrange(0, i as int),
        decreases capabilities@.len() - i,
    {
        granted.push(capabilities[i].clone());
        proof {
            assert(capabilities@.subrange(0, i + 1) =~= capabilities@.subrange(0, i as int).push(capabilities@[i as int]));
        }
        i = i + 1;
    }
    proof {
        assert(granted@ =~= capabilities@);
    }
    let response = AuthenticateResponse {
        accepted: true,
        expires_at: Some(expires_at),
        granted_capabilities: granted,
        error: None,
    };
    Ok(session_frame(session_id, sequence, Body::AuthenticateResponse(response)))
}

/// The answer to a refused authentication: not accepted, carrying the error
/// with a fresh correlation identifier, at `sequence`.
pub fn authentication_rejected(session_id: &[u8], sequence: u64, error: GatewayError) -> (frame: Result<GatewayFrame, GatewayError>)
    ensures
        frame matches Err(e) ==> e.code == GatewayErrorCode::Internal,
        frame matches Ok(f) ==> {
            &&& is_current_version(f.version)
            &&& f.session_id@ == session_id@
            &&& f.sequence == sequence
            &&& f.body matches Some(Body::AuthenticateResponse(r))
            &&& !r.accepted
            &&& r.expires_at is None
            &&& r.granted_capabilities@.len() == 0
            &&& r.error matches Some(status) && status.code@ == crate::daemon::error::gateway_error_name(error.code)@
        },
{
    let correlation = match random_correlation_id() {
        Ok(id) => id,
        Err(e) => {
            return Err(e);
        },
    };
    let response = AuthenticateResponse {
        accepted: false,
        expires_at: None,
        granted_capabilities: Vec::new(),
        error: Some(error.to_status(correlation)),
    };
    Ok(session_frame(session_id, sequence, Body::AuthenticateResponse(response)))
}

/// The error frame that ends a session, with a fresh correlation identifier.
pub fn error_frame(session_id: &[u8], sequence: u64, error: GatewayError) -> (frame: Result<GatewayFrame, GatewayError>)
    ensures
        frame matches Err(e) ==> e.code == GatewayErrorCode::Internal,
        frame matches Ok(f) ==> {
            &&& is_current_version(f.version)
            &&& f.session_id@ == session_id@
            &&& f.sequence == sequence
            &&& f.body matches Some(Body::Error(status))
            &&& status.code@ == crate::daemon::error::gateway_error_name(error.code)@
        },
{
    let correlation = match random_correlation_id() {
        Ok(id) => id,
        Err(e) => {
            return Err(e);
        },
    };
    Ok(session_frame(session_id, sequence, Body::Error(error.to_status(correlation))))
}

/// The byte count of the shortest length prefix for `length`.
pub open spec fn canonical_prefix_len(length: nat) -> nat {
    if length < 128 {
        1
    } else if length < 16384 {
        2
    } else if length < 2097152 {
        3
    } else if length < 268435456 {
        4
    } else {
        5
    }
}

/// The bytes a reader takes as a frame's length prefix: up to five, each but
/// the last with its continuation bit set, the last without it unless five
/// were read.
pub open spec fn read_prefix_shape(prefix: Seq<u8>) -> bool {
    &&& 1 <= prefix.len() <= 5
    &&& forall|i: int| 0 <= i < prefix.len() - 1 ==> #[trigger] prefix[i] >= 128
    &&& (prefix[prefix.len() - 1] < 128 || prefix.len() == 5)
}

/// What a frame's length prefix yields: a prefix that does not end, an empty
/// frame or one over the limit is `MessageTooLarge`; a prefix longer than
/// needed is a protocol violation.
pub open spec fn frame_length_outcome(prefix: Seq<u8>, max_frame_bytes: usize) -> Result<u64, GatewayError> {
    let length = varint_value(prefix);
    if prefix[prefix.len() - 1] >= 128 || length == 0 || length > max_frame_bytes {
        Err(GatewayError { code: GatewayErrorCode::MessageTooLarge })
    } else if canonical_prefix_len(length) != prefix.len() {
        Err(GatewayError { code: GatewayErrorCode::ProtocolViolation })
    } else {
        Ok(length as u64)
    }
}

/// Decodes and checks a frame's length prefix.
pub fn frame_length(prefix: &[u8], max_frame_bytes: usize) -> (result: Result<u64, GatewayError>)
    requires
        read_prefix_shape(prefix@),
    ensures
        result == frame_length_outcome(prefix@, max_frame_bytes),
{
    let n = prefix.len();
    proof {
        lemma_pow128_values();
        assert(prefix@.subrange(0, n as int) =~= prefix@);
        lemma_varint_value_bounds(prefix@);
        lemma_pow_mono((n - 1) as nat, 4);
        let l = (prefix@[n - 1] % 128) as nat + 1;
        assert(l * pow128((n - 1) as nat) <= 128 * 268435456) by (nonlinear_arith)
            requires l <= 128, pow128((n - 1) as nat) <= 268435456;
    }
    let length = varint_value_of(prefix, 0, n);
    if prefix[n - 1] >= 128 || length == 0 || length > max_frame_bytes as u64 {
        return Err(GatewayError::new(GatewayErrorCode::MessageTooLarge));
    }
    let canonical: usize = if length < 128 {
        1
    } else if length < 16384 {
        2
    } else if length < 2097152 {
        3
    } else if length < 268435456 {
        4
    } else {
        5
    };
    if canonical != n {
        return Err(GatewayError::new(GatewayErrorCode::ProtocolViolation));
    }
    Ok(length)
}

/// The length prefix of an outgoing frame whose encoding is `encoded_len`
/// bytes: an empty frame, or one over `max_frame_bytes` or beyond 32 bits, is
/// `MessageTooLarge`.
pub fn outgoing_frame_prefix(encoded_len: usize, max_frame_bytes: usize) -> (result: Result<
    Vec<u8>,
    GatewayError,
>)
    ensures
        encoded_len == 0 || encoded_len > max_frame_bytes || encoded_len > u32::MAX ==> result
            == Err::<Vec<u8>, GatewayError>(GatewayError { code: GatewayErrorCode::MessageTooLarge }),
        0 < encoded_len <= max_frame_bytes && encoded_len <= u32::MAX ==> (result matches Ok(prefix)
            && prefix@ == varint_encoding(encoded_len as nat)),
{
    if encoded_len == 0 || encoded_len > max_frame_bytes || encoded_len > 4294967295usize {
        return Err(GatewayError::new(GatewayErrorCode::MessageTooLarge));
    }
    let mut prefix: Vec<u8> = Vec::new();
    encode_u32_varint(encoded_len as u32, &mut prefix);
    proof {
        assert(prefix@ =~= varint_encoding(encoded_len as nat));
    }
    Ok(prefix)
}

} // verus!
