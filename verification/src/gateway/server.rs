//! The reference server handshake as a sequence of verified steps.
//!
//! The transport layer drives it: it feeds each received body to the step
//! the state asks for, writes every queued frame, and hands the token
//! material to the application's verifier. A `Refuse` outcome means: write
//! the queued frames, then fail with the carried error.
use vstd::prelude::*;

use crate::crypto::fill_random;
use crate::gateway::binding::{binding_result, session_nonce_binding};
use crate::gateway::error::ProtocolError;
use crate::gateway::limits::{ProtocolLimits, MAX_SESSION_TTL_SECONDS};
use crate::gateway::flow::flow_limits_valid;
use crate::gateway::negotiation::{
    capabilities_result, enabled_check_result, flow_control_bytes, negotiate_capabilities, negotiation_result,
    select_version, selection_result, tcp_connect_bytes, verify_enabled_capabilities,
    version_range,
};
use crate::gateway::session::{NegotiatedParameters, Session, SessionPhase};
use crate::gateway::wire::{
    AuthenticationResult, Body, ClientHello, Error, ErrorCode, ProtocolVersion,
    ProtocolVersionRange, ResolveResult, RetryHint, ServerHello, TcpStreamRejected,
};
use crate::text::{bytes_equal, clone_strings, string_from_ascii, texts};
use crate::gateway::framing::copy_bytes;

verus! {

/// What the application's verifier decided about the presented token.
pub struct AuthenticationDecision {
    pub accepted: bool,
    pub expires_at_unix_seconds: i64,
    pub granted_capabilities: Vec<String>,
}

impl AuthenticationDecision {
    pub fn reject() -> (decision: Self)
        ensures
            !decision.accepted,
            decision.expires_at_unix_seconds == 0,
            decision.granted_capabilities@.len() == 0,
    {
        AuthenticationDecision {
            accepted: false,
            expires_at_unix_seconds: 0,
            granted_capabilities: Vec::new(),
        }
    }
}

pub struct ServerConfig {
    pub supported_versions: ProtocolVersionRange,
    pub supported_capabilities: Vec<String>,
    pub session_ttl_seconds: u32,
    pub limits: ProtocolLimits,
}

impl Default for ServerConfig {
    /// Version 1.0, TCP connect and flow control, a one-hour session TTL and
    /// the default limits.
    fn default() -> (config: Self)
        ensures
            config.supported_versions == (ProtocolVersionRange {
                minimum: Some(ProtocolVersion { major: 1, minor: 0 }),
                maximum: Some(ProtocolVersion { major: 1, minor: 0 }),
            }),
            texts(config.supported_capabilities@) == seq![
                crate::gateway::negotiation::tcp_connect_name(),
                crate::gateway::negotiation::flow_control_name(),
            ],
            config.session_ttl_seconds == 3600,
            config.limits.validation_result() is Ok,
            config.limits.maximum_frame_size == 65536,
            config.limits.idle_stream_timeout_ms == 120000,
    {
        let tcp = tcp_connect_bytes();
        let flow = flow_control_bytes();
        let mut capabilities: Vec<String> = Vec::new();
        capabilities.push(string_from_ascii(tcp.as_slice()));
        capabilities.push(string_from_ascii(flow.as_slice()));
        proof {
            assert(texts(capabilities@) =~= seq![
                crate::gateway::negotiation::tcp_connect_name(),
                crate::gateway::negotiation::flow_control_name(),
            ]);
        }
        ServerConfig {
            supported_versions: version_range(1, 0, 0),
            supported_capabilities: capabilities,
            session_ttl_seconds: 3600,
            limits: ProtocolLimits::default(),
        }
    }
}

/// Whether the configuration passes the checks made before any I/O.
pub open spec fn server_config_result(config: ServerConfig) -> Result<ProtocolVersion, ProtocolError> {
    match config.limits.validation_result() {
        Err(e) => Err(e),
        Ok(()) => if config.session_ttl_seconds == 0 || config.session_ttl_seconds
            > MAX_SESSION_TTL_SECONDS {
            Err(ProtocolError::InvalidField("session_ttl_seconds"))
        } else {
            match config.supported_versions.maximum {
                None => Err(ProtocolError::InvalidField("maximum_version")),
                Some(v) => if v.major == 0 {
                    Err(ProtocolError::InvalidField("initial_version"))
                } else {
                    Ok(v)
                },
            }
        },
    }
}

/// A server session waiting for the client's hello.
pub struct ServerAwaitingClientHello<T> {
    pub session: Session<T>,
    pub config: ServerConfig,
}

/// Checks the configuration and opens a server session.
pub fn start_server<T>(transport: T, config: ServerConfig) -> (result: Result<
    ServerAwaitingClientHello<T>,
    ProtocolError,
>)
    ensures
        match (result, server_config_result(config)) {
            (Ok(state), Ok(v)) => {
                &&& state.session.wf()
                &&& state.session.phase_spec() == SessionPhase::AwaitingClientHello
                &&& state.session.outbound_version() == v
                &&& state.session.limits() == config.limits
                &&& state.config == config
            },
            (Err(e), Err(f)) => e == f,
            _ => false,
        },
{
    config.limits.validate()?;
    if config.session_ttl_seconds == 0 || config.session_ttl_seconds > MAX_SESSION_TTL_SECONDS {
        return Err(ProtocolError::InvalidField("session_ttl_seconds"));
    }
    let initial_version = match config.supported_versions.maximum {
        Some(v) => v,
        None => return Err(ProtocolError::InvalidField("maximum_version")),
    };
    let session = Session::new_server(transport, config.limits, initial_version)?;
    Ok(ServerAwaitingClientHello { session, config })
}

/// The version and capability names the server settles on for a hello.
pub open spec fn hello_negotiation(config: ServerConfig, hello: ClientHello) -> Result<
    (ProtocolVersion, Seq<Seq<u8>>),
    ProtocolError,
> {
    match hello.supported_versions {
        None => Err(ProtocolError::InvalidField("client_supported_versions")),
        Some(range) => match selection_result(range, config.supported_versions) {
            Err(e) => Err(e),
            Ok(v) => match negotiation_result(
                texts(hello.client_capabilities@),
                texts(config.supported_capabilities@),
            ) {
                Err(e) => Err(e),
                Ok(names) => Ok((v, names)),
            },
        },
    }
}

/// The fatal error that tells a client no common version exists.
pub fn incompatibility_error(correlation_id: [u8; 16]) -> (error: Error)
    ensures
        error.code == ErrorCode::ProtocolIncompatible,
        error.retry_hint == RetryHint::Never,
        error.fatal,
        error.stream_id == 0,
        error.retry_after_ms == 0,
        error.correlation_id@ == correlation_id@,
{
    Error {
        code: ErrorCode::ProtocolIncompatible,
        retry_hint: RetryHint::Never,
        fatal: true,
        stream_id: 0,
        retry_after_ms: 0,
        correlation_id: copy_bytes(&correlation_id),
    }
}

/// An error of the shape `incompatibility_error` builds.
pub open spec fn incompatibility_shaped(error: Error) -> bool {
    &&& error.code == ErrorCode::ProtocolIncompatible
    &&& error.retry_hint == RetryHint::Never
    &&& error.fatal
    &&& error.stream_id == 0
    &&& error.retry_after_ms == 0
    &&& error.correlation_id@.len() == 16
}

/// Whether the parameters a hello reply fixes are acceptable to the session.
pub open spec fn reply_configuration(
    config: ServerConfig,
    hello: ClientHello,
    selected: ProtocolVersion,
    enabled: Seq<Seq<u8>>,
) -> Result<(), ProtocolError> {
    if selected.major == 0 {
        Err(ProtocolError::InvalidSession)
    } else if config.limits.maximum_frame_size == 0 || hello.maximum_frame_size == 0 {
        Err(ProtocolError::InvalidField("negotiated_frame_size"))
    } else if !flow_limits_valid(
        hello.initial_connection_receive_window,
        config.limits.initial_connection_window,
        config.limits.maximum_concurrent_streams,
    ) {
        Err(ProtocolError::InvalidField("flow_controller_limits"))
    } else {
        capabilities_result(enabled)
    }
}

/// The hello the server answers with.
pub open spec fn server_hello_matches(
    reply: ServerHello,
    config: ServerConfig,
    hello: ClientHello,
    selected: ProtocolVersion,
    enabled: Seq<Seq<u8>>,
    server_nonce: Seq<u8>,
    session_id: Seq<u8>,
) -> bool {
    &&& reply.supported_versions == Some(config.supported_versions)
    &&& reply.selected_version == Some(selected)
    &&& texts(reply.enabled_capabilities@) == enabled
    &&& reply.echoed_client_nonce@ == hello.session_nonce@
    &&& reply.server_nonce@ == server_nonce
    &&& reply.ephemeral_session_id@ == session_id
    &&& reply.maximum_frame_size == (if config.limits.maximum_frame_size <= hello.maximum_frame_size {
        config.limits.maximum_frame_size as int
    } else {
        hello.maximum_frame_size as int
    })
    &&& reply.maximum_concurrent_streams == config.limits.maximum_concurrent_streams
    &&& reply.initial_connection_receive_window == config.limits.initial_connection_window
    &&& reply.initial_stream_receive_window == config.limits.initial_stream_window
    &&& reply.idle_stream_timeout_ms == config.limits.idle_stream_timeout_ms
    &&& reply.session_ttl_seconds == config.session_ttl_seconds
}

/// A server session that answered the hello and waits for `Authenticate`.
pub struct ServerAwaitingAuthentication<T> {
    pub session: Session<T>,
    pub client_nonce: Vec<u8>,
    pub server_nonce: [u8; 32],
    pub session_id: [u8; 16],
    pub selected: ProtocolVersion,
    pub enabled: Vec<String>,
}

/// What the server does with a client hello.
pub enum ServerHelloOutcome<T> {
    /// The server hello is queued; write it, then await `Authenticate`.
    Reply(ServerAwaitingAuthentication<T>),
    /// An incompatibility error is queued; write it, then fail.
    Refuse(Session<T>, ProtocolError),
    Fail(ProtocolError),
}

impl<T> ServerAwaitingClientHello<T> {
    /// Queues the incompatibility error for a refused hello. It fails only
    /// when no entropy is available for the error's correlation ID, or when
    /// the control queue refuses the error.
    fn refuse(self, error: ProtocolError) -> (outcome: ServerHelloOutcome<T>)
        requires
            self.session.wf(),
            self.session.phase_spec() == SessionPhase::AwaitingClientHello,
        ensures
            match outcome {
                ServerHelloOutcome::Refuse(session, e) => {
                    &&& e == error
                    &&& session.wf()
                    &&& exists|err: Error, size: usize|
                        incompatibility_shaped(err) && self.session.queued_control(
                            session,
                            (Body::Error(err), size),
                        )
                },
                ServerHelloOutcome::Fail(e) => e == ProtocolError::EntropyUnavailable || exists|err: Error|
                    incompatibility_shaped(err) && self.session.control_queue_result(Body::Error(err))
                        == Err::<usize, ProtocolError>(e),
                ServerHelloOutcome::Reply(_) => false,
            },
    {
        let mut correlation_id = [0u8; 16];
        if !fill_random(&mut correlation_id) {
            return ServerHelloOutcome::Fail(ProtocolError::EntropyUnavailable);
        }
        self.refuse_with(error, correlation_id)
    }

    /// Queues the incompatibility error with the given correlation ID for a
    /// refused hello, or fails with the control queue's error.
    pub fn refuse_with(self, error: ProtocolError, correlation_id: [u8; 16]) -> (outcome:
        ServerHelloOutcome<T>)
        requires
            self.session.wf(),
            self.session.phase_spec() == SessionPhase::AwaitingClientHello,
        ensures
            match outcome {
                ServerHelloOutcome::Refuse(session, e) => {
                    &&& e == error
                    &&& session.wf()
                    &&& exists|err: Error, size: usize|
                        incompatibility_shaped(err) && err.correlation_id@ == correlation_id@
                            && self.session.queued_control(session, (Body::Error(err), size))
                },
                ServerHelloOutcome::Fail(e) => exists|err: Error|
                    incompatibility_shaped(err) && err.correlation_id@ == correlation_id@
                        && self.session.control_queue_result(Body::Error(err)) == Err::<
                        usize,
                        ProtocolError,
                    >(e),
                ServerHelloOutcome::Reply(_) => false,
            },
    {
        let mut session = self.session;
        let err = incompatibility_error(correlation_id);
        let ghost err_spec = err;
        match session.queue_handshake(Body::Error(err)) {
            Ok(()) => {
                proof {
                    assert(correlation_id@.len() == 16);
                    assert(incompatibility_shaped(err_spec));
                    let size = session.scheduler().control().last().1;
                    assert(self.session.queued_control(session, (Body::Error(err_spec), size)));
                }
                ServerHelloOutcome::Refuse(session, error)
            },
            Err(e) => {
                proof {
                    assert(correlation_id@.len() == 16);
                    assert(incompatibility_shaped(err_spec));
                    assert(self.session.control_queue_result(Body::Error(err_spec)) == Err::<usize, ProtocolError>(e));
                }
                ServerHelloOutcome::Fail(e)
            },
        }
    }

    /// Answers a negotiated hello with the given nonce and session ID:
    /// configures the session and queues the server hello.
    pub fn reply_to_hello(
        self,
        hello: ClientHello,
        selected: ProtocolVersion,
        enabled: Vec<String>,
        server_nonce: [u8; 32],
        session_id: [u8; 16],
    ) -> (result: Result<ServerAwaitingAuthentication<T>, ProtocolError>)
        requires
            self.session.wf(),
            self.session.phase_spec() == SessionPhase::AwaitingClientHello,
            self.session.limits() == self.config.limits,
            self.config.limits.validation_result() is Ok,
        ensures
            self.config.limits.idle_stream_timeout_ms > 4294967295 ==> result == Err::<
                ServerAwaitingAuthentication<T>,
                ProtocolError,
            >(ProtocolError::InvalidField("idle_stream_timeout")),
            self.config.limits.idle_stream_timeout_ms <= 4294967295 ==> match reply_configuration(
                self.config,
                hello,
                selected,
                texts(enabled@),
            ) {
                Err(e) => result matches Err(f) && f == e,
                Ok(()) => exists|reply: ServerHello|
                    server_hello_matches(
                        reply,
                        self.config,
                        hello,
                        selected,
                        texts(enabled@),
                        server_nonce@,
                        session_id@,
                    ) && match self.session.control_queue_result(Body::ServerHello(reply)) {
                        Err(e) => result matches Err(f) && f == e,
                        Ok(_) => result is Ok,
                    },
            },
            result matches Ok(state) ==> {
                &&& state.session.wf()
                &&& state.session.phase_spec() == SessionPhase::AwaitingAuthentication
                &&& state.session.negotiated_version() == Some(selected)
                &&& state.session.session_id_spec() == session_id@
                &&& state.session.capabilities() == texts(enabled@)
                &&& state.client_nonce@ == hello.session_nonce@
                &&& state.server_nonce == server_nonce
                &&& state.session_id == session_id
                &&& state.selected == selected
                &&& texts(state.enabled@) == texts(enabled@)
                &&& exists|reply: ServerHello, size: usize|
                    server_hello_matches(
                        reply,
                        self.config,
                        hello,
                        selected,
                        texts(enabled@),
                        server_nonce@,
                        session_id@,
                    ) && state.session.scheduler().control() == self.session.scheduler().control().push(
                        (Body::ServerHello(reply), size),
                    )
            },
    {
        let limits = self.config.limits;
        let maximum_frame_size = if limits.maximum_frame_size <= hello.maximum_frame_size as usize {
            limits.maximum_frame_size
        } else {
            hello.maximum_frame_size as usize
        };
        if limits.idle_stream_timeout_ms > 4294967295 {
            return Err(ProtocolError::InvalidField("idle_stream_timeout"));
        }
        let reply = ServerHello {
            supported_versions: Some(self.config.supported_versions),
            selected_version: Some(selected),
            enabled_capabilities: clone_strings(enabled.as_slice()),
            echoed_client_nonce: copy_bytes(hello.session_nonce.as_slice()),
            server_nonce: copy_bytes(&server_nonce),
            ephemeral_session_id: copy_bytes(&session_id),
            maximum_frame_size: maximum_frame_size as u32,
            maximum_concurrent_streams: limits.maximum_concurrent_streams as u32,
            initial_connection_receive_window: limits.initial_connection_window,
            initial_stream_receive_window: limits.initial_stream_window,
            idle_stream_timeout_ms: limits.idle_stream_timeout_ms as u32,
            session_ttl_seconds: self.config.session_ttl_seconds,
        };
        let ghost reply_spec = reply;
        let mut session = self.session;
        session.configure_negotiated(
            NegotiatedParameters {
                selected_version: selected,
                session_id: copy_bytes(&session_id),
                maximum_frame_size,
                peer_connection_receive_window: hello.initial_connection_receive_window,
                local_connection_receive_window: limits.initial_connection_window,
                maximum_concurrent_streams: limits.maximum_concurrent_streams,
                enabled_capabilities: clone_strings(enabled.as_slice()),
                idle_stream_timeout_ms: limits.idle_stream_timeout_ms,
                next_phase: SessionPhase::AwaitingAuthentication,
            },
        )?;
        let ghost before = session.scheduler().control();
        proof {
            assert(server_hello_matches(
                reply_spec,
                self.config,
                hello,
                selected,
                texts(enabled@),
                server_nonce@,
                session_id@,
            ));
        }
        session.queue_handshake(Body::ServerHello(reply))?;
        proof {
            let size = session.scheduler().control().last().1;
            assert(session.scheduler().control() == self.session.scheduler().control().push(
                (Body::ServerHello(reply_spec), size),
            ));
        }
        Ok(
            ServerAwaitingAuthentication {
                session,
                client_nonce: hello.session_nonce,
                server_nonce,
                session_id,
                selected,
                enabled,
            },
        )
    }

    /// Negotiates a received hello: answers it, refuses it when no common
    /// version or capability set exists, or fails.
    pub fn on_client_hello(self, body: Body) -> (outcome: ServerHelloOutcome<T>)
        requires
            self.session.wf(),
            self.session.phase_spec() == SessionPhase::AwaitingClientHello,
            self.session.limits() == self.config.limits,
            self.config.limits.validation_result() is Ok,
        ensures
            match body {
                Body::ClientHello(hello) => {
                    &&& hello.supported_versions is None ==> outcome == ServerHelloOutcome::<T>::Fail(
                        ProtocolError::InvalidField("client_supported_versions"),
                    )
                    &&& match outcome {
                        ServerHelloOutcome::Reply(state) => hello_negotiation(self.config, hello) matches Ok(
                            (v, names),
                        ) && state.selected == v && texts(state.enabled@) == names
                            && state.session.phase_spec() == SessionPhase::AwaitingAuthentication
                            && state.session.wf() && state.session.negotiated_version() == Some(v)
                            && state.session.session_id_spec() == state.session_id@
                            && state.session.capabilities() == names && state.client_nonce@
                            == hello.session_nonce@ && exists|reply: ServerHello, size: usize|
                            server_hello_matches(
                                reply,
                                self.config,
                                hello,
                                v,
                                names,
                                state.server_nonce@,
                                state.session_id@,
                            ) && state.session.scheduler().control() == self.session.scheduler().control().push(
                                (Body::ServerHello(reply), size),
                            ),
                        ServerHelloOutcome::Refuse(session, e) => hello.supported_versions is Some
                            && hello_negotiation(self.config, hello) == Err::<
                            (ProtocolVersion, Seq<Seq<u8>>),
                            ProtocolError,
                        >(e) && session.wf() && exists|err: Error, size: usize|
                            incompatibility_shaped(err) && self.session.queued_control(
                                session,
                                (Body::Error(err), size),
                            ),
                        ServerHelloOutcome::Fail(e) => {
                            ||| hello.supported_versions is None
                            ||| e == ProtocolError::EntropyUnavailable
                            ||| (hello.supported_versions is Some && hello_negotiation(self.config, hello) is Err
                                && exists|err: Error|
                                incompatibility_shaped(err) && self.session.control_queue_result(
                                    Body::Error(err),
                                ) == Err::<usize, ProtocolError>(e))
                            ||| (hello_negotiation(self.config, hello) matches Ok((v, names)) && (
                            (self.config.limits.idle_stream_timeout_ms > 4294967295 && e
                                == ProtocolError::InvalidField("idle_stream_timeout"))
                                || reply_configuration(self.config, hello, v, names) == Err::<
                                (),
                                ProtocolError,
                            >(e) || exists|reply: ServerHello|
                                server_hello_matches(
                                    reply,
                                    self.config,
                                    hello,
                                    v,
                                    names,
                                    reply.server_nonce@,
                                    reply.ephemeral_session_id@,
                                ) && self.session.control_queue_result(Body::ServerHello(reply)) == Err::<
                                    usize,
                                    ProtocolError,
                                >(e)))
                        },
                    }
                },
                _ => outcome == ServerHelloOutcome::<T>::Fail(
                    ProtocolError::ProtocolViolation("expected ClientHello"),
                ),
            },
    {
        let hello = match body {
            Body::ClientHello(hello) => hello,
            _ => return ServerHelloOutcome::Fail(ProtocolError::ProtocolViolation("expected ClientHello")),
        };
        let client_range = match hello.supported_versions {
            Some(range) => range,
            None => return ServerHelloOutcome::Fail(
                ProtocolError::InvalidField("client_supported_versions"),
            ),
        };
        let selected = match select_version(&client_range, &self.config.supported_versions) {
            Ok(v) => v,
            Err(e) => return self.refuse(e),
        };
        let enabled = match negotiate_capabilities(
            hello.client_capabilities.as_slice(),
            self.config.supported_capabilities.as_slice(),
        ) {
            Ok(enabled) => enabled,
            Err(e) => return self.refuse(e),
        };
        let mut server_nonce = [0u8; 32];
        let mut session_id = [0u8; 16];
        if !fill_random(&mut server_nonce) {
            return ServerHelloOutcome::Fail(ProtocolError::EntropyUnavailable);
        }
        if !fill_random(&mut session_id) {
            return ServerHelloOutcome::Fail(ProtocolError::EntropyUnavailable);
        }
        match self.reply_to_hello(hello, selected, enabled, server_nonce, session_id) {
            Ok(state) => ServerHelloOutcome::Reply(state),
            Err(e) => ServerHelloOutcome::Fail(e),
        }
    }
}

/// `result` is what `authentication_result_for` makes of a decision with
/// these fields.
pub open spec fn result_of_decision(result: AuthenticationResult, accepted: bool, granted: Seq<Seq<u8>>, expires: i64) -> bool {
    &&& result.accepted == accepted
    &&& result.error_code == if accepted {
        ErrorCode::Unspecified
    } else {
        ErrorCode::AuthenticationFailed
    }
    &&& texts(result.granted_capabilities@) == granted
    &&& result.expires_at_unix_seconds == expires
}

/// The error a handshake body's queueing ends with, for some body of the
/// given kind.
pub open spec fn result_queue_error<T>(
    session: Session<T>,
    accepted: bool,
    granted: Seq<Seq<u8>>,
    expires: i64,
    e: ProtocolError,
) -> bool {
    ||| (!session.in_handshake() && e == ProtocolError::ProtocolViolation("handshake already complete"))
    ||| (session.in_handshake() && exists|r: AuthenticationResult|
        result_of_decision(r, accepted, granted, expires) && session.control_queue_result(
            Body::AuthenticationResult(r),
        ) == Err::<usize, ProtocolError>(e))
}

/// The authentication result the server sends for a decision.
pub fn authentication_result_for(decision: AuthenticationDecision) -> (result: AuthenticationResult)
    ensures
        result.accepted == decision.accepted,
        result.error_code == if decision.accepted {
            ErrorCode::Unspecified
        } else {
            ErrorCode::AuthenticationFailed
        },
        result.granted_capabilities@ == decision.granted_capabilities@,
        result.expires_at_unix_seconds == decision.expires_at_unix_seconds,
{
    AuthenticationResult {
        accepted: decision.accepted,
        error_code: if decision.accepted {
            ErrorCode::Unspecified
        } else {
            ErrorCode::AuthenticationFailed
        },
        granted_capabilities: decision.granted_capabilities,
        expires_at_unix_seconds: decision.expires_at_unix_seconds,
    }
}

/// A server session whose client proved the hello binding and whose token
/// awaits the verifier's decision.
pub struct ServerAwaitingDecision<T> {
    pub session: Session<T>,
    pub enabled: Vec<String>,
}

/// What the server does with `Authenticate`.
pub enum ServerAuthOutcome<T> {
    /// Hand the token, proof and binding to the verifier.
    Verify(ServerAwaitingDecision<T>, Vec<u8>, Vec<u8>, [u8; 32]),
    /// A rejection is queued; write it, then fail.
    Refuse(Session<T>, ProtocolError),
    Fail(ProtocolError),
}

impl<T> ServerAwaitingAuthentication<T> {
    /// Checks the client's binding of the hello transcript.
    pub fn on_authenticate(self, body: Body) -> (outcome: ServerAuthOutcome<T>)
        requires
            self.session.wf(),
        ensures
            match body {
                Body::Authenticate(m) => match binding_result(
                    self.client_nonce@,
                    self.server_nonce@,
                    self.session_id@,
                    self.selected,
                ) {
                    Err(e) => outcome == ServerAuthOutcome::<T>::Fail(e),
                    Ok(expected) => if m.session_nonce_binding@ == expected {
                        match outcome {
                            ServerAuthOutcome::Verify(state, token, proof, binding) => token@
                                == m.anonymous_capability_token@ && proof@ == m.proof_of_possession@
                                && binding@ == expected && state.session.wf() && texts(state.enabled@)
                                == texts(self.enabled@) && state.session == self.session,
                            _ => false,
                        }
                    } else {
                        match outcome {
                            ServerAuthOutcome::Refuse(session, e) => e
                                == ProtocolError::AuthenticationRejected && session.wf() && exists|
                                r: AuthenticationResult,
                                size: usize,
                            |
                                result_of_decision(r, false, Seq::empty(), 0) && self.session.queued_control(
                                    session,
                                    (Body::AuthenticationResult(r), size),
                                ),
                            ServerAuthOutcome::Fail(e) => result_queue_error(self.session, false, Seq::empty(), 0, e),
                            _ => false,
                        }
                    },
                },
                _ => outcome == ServerAuthOutcome::<T>::Fail(
                    ProtocolError::ProtocolViolation("expected Authenticate"),
                ),
            },
    {
        let authenticate = match body {
            Body::Authenticate(m) => m,
            _ => return ServerAuthOutcome::Fail(ProtocolError::ProtocolViolation("expected Authenticate")),
        };
        let expected = match session_nonce_binding(
            self.client_nonce.as_slice(),
            &self.server_nonce,
            &self.session_id,
            &self.selected,
        ) {
            Ok(b) => b,
            Err(e) => return ServerAuthOutcome::Fail(e),
        };
        if !bytes_equal(authenticate.session_nonce_binding.as_slice(), &expected) {
            let mut session = self.session;
            let rejection = authentication_result_for(AuthenticationDecision::reject());
            let ghost r = rejection;
            proof {
                assert(texts(r.granted_capabilities@) =~= Seq::<Seq<u8>>::empty());
                assert(result_of_decision(r, false, Seq::empty(), 0));
            }
            return match session.queue_handshake(Body::AuthenticationResult(rejection)) {
                Ok(()) => {
                    proof {
                        let size = session.scheduler().control().last().1;
                        assert(self.session.queued_control(session, (Body::AuthenticationResult(r), size)));
                    }
                    ServerAuthOutcome::Refuse(session, ProtocolError::AuthenticationRejected)
                },
                Err(e) => {
                    proof {
                        if self.session.in_handshake() {
                            assert(self.session.control_queue_result(Body::AuthenticationResult(r))
                                == Err::<usize, ProtocolError>(e));
                        }
                    }
                    ServerAuthOutcome::Fail(e)
                },
            };
        }
        ServerAuthOutcome::Verify(
            ServerAwaitingDecision { session: self.session, enabled: self.enabled },
            authenticate.anonymous_capability_token,
            authenticate.proof_of_possession,
            expected,
        )
    }
}

/// What the server does with the verifier's decision.
pub enum ServerDecisionOutcome<T> {
    /// The acceptance is queued and the session active; write the queue.
    Accept(ServerReference<T>),
    /// A result is queued; write it, then fail.
    Refuse(Session<T>, ProtocolError),
    Fail(ProtocolError),
}

impl<T> ServerAwaitingDecision<T> {
    /// Sends the decision and, on acceptance, activates the session with the
    /// granted capabilities.
    pub fn on_decision(self, decision: AuthenticationDecision) -> (outcome: ServerDecisionOutcome<T>)
        requires
            self.session.wf(),
            self.session.phase_spec() == SessionPhase::AwaitingAuthentication,
        ensures
            decision.accepted ==> match enabled_check_result(
                texts(self.enabled@),
                texts(decision.granted_capabilities@),
            ) {
                Err(e) => outcome == ServerDecisionOutcome::<T>::Fail(e),
                Ok(()) => if decision.expires_at_unix_seconds <= 0 {
                    outcome == ServerDecisionOutcome::<T>::Fail(
                        ProtocolError::InvalidField("authentication_expiry"),
                    )
                } else {
                    match outcome {
                        ServerDecisionOutcome::Accept(reference) => reference.session.wf()
                            && reference.session.phase_spec() == SessionPhase::Active && texts(
                            reference.granted_capabilities@,
                        ) == texts(decision.granted_capabilities@)
                            && reference.session.capabilities() == texts(
                            decision.granted_capabilities@,
                        ) && exists|r: AuthenticationResult, size: usize|
                            result_of_decision(
                                r,
                                true,
                                texts(decision.granted_capabilities@),
                                decision.expires_at_unix_seconds,
                            ) && self.session.queued_control(
                                reference.session,
                                (Body::AuthenticationResult(r), size),
                            ),
                        ServerDecisionOutcome::Refuse(session, _) => session.wf() && exists|
                            r: AuthenticationResult,
                            size: usize,
                        |
                            result_of_decision(
                                r,
                                true,
                                texts(decision.granted_capabilities@),
                                decision.expires_at_unix_seconds,
                            ) && self.session.queued_control(session, (Body::AuthenticationResult(r), size)),
                        ServerDecisionOutcome::Fail(e) => result_queue_error(
                            self.session,
                            true,
                            texts(decision.granted_capabilities@),
                            decision.expires_at_unix_seconds,
                            e,
                        ),
                    }
                },
            },
            !decision.accepted ==> match outcome {
                ServerDecisionOutcome::Refuse(session, e) => e == ProtocolError::AuthenticationRejected
                    && session.wf() && exists|r: AuthenticationResult, size: usize|
                    result_of_decision(
                        r,
                        false,
                        texts(decision.granted_capabilities@),
                        decision.expires_at_unix_seconds,
                    ) && self.session.queued_control(session, (Body::AuthenticationResult(r), size)),
                ServerDecisionOutcome::Fail(e) => result_queue_error(
                    self.session,
                    false,
                    texts(decision.granted_capabilities@),
                    decision.expires_at_unix_seconds,
                    e,
                ),
                ServerDecisionOutcome::Accept(_) => false,
            },
    {
        if decision.accepted {
            match verify_enabled_capabilities(
                self.enabled.as_slice(),
                decision.granted_capabilities.as_slice(),
            ) {
                Ok(()) => {},
                Err(e) => return ServerDecisionOutcome::Fail(e),
            }
            if decision.expires_at_unix_seconds <= 0 {
                return ServerDecisionOutcome::Fail(ProtocolError::InvalidField("authentication_expiry"));
            }
        }
        let granted = clone_strings(decision.granted_capabilities.as_slice());
        let accepted = decision.accepted;
        let mut session = self.session;
        let ghost granted_view = texts(decision.granted_capabilities@);
        let ghost expires = decision.expires_at_unix_seconds;
        let result = authentication_result_for(decision);
        let ghost r = result;
        proof {
            assert(result_of_decision(r, accepted, granted_view, expires));
        }
        match session.queue_handshake(Body::AuthenticationResult(result)) {
            Ok(()) => {},
            Err(e) => {
                proof {
                    if self.session.in_handshake() {
                        assert(self.session.control_queue_result(Body::AuthenticationResult(r))
                            == Err::<usize, ProtocolError>(e));
                    }
                }
                return ServerDecisionOutcome::Fail(e);
            },
        }
        let ghost size = session.scheduler().control().last().1;
        proof {
            assert(self.session.queued_control(session, (Body::AuthenticationResult(r), size)));
        }
        if !accepted {
            return ServerDecisionOutcome::Refuse(session, ProtocolError::AuthenticationRejected);
        }
        match session.set_granted_capabilities(granted.as_slice()) {
            Ok(()) => {},
            Err(e) => {
                proof {
                    assert(self.session.queued_control(session, (Body::AuthenticationResult(r), size)));
                }
                return ServerDecisionOutcome::Refuse(session, e);
            },
        }
        proof {
            assert(self.session.queued_control(session, (Body::AuthenticationResult(r), size)));
        }
        match session.mark_active() {
            Ok(()) => {},
            Err(e) => {
                proof {
                    assert(self.session.queued_control(session, (Body::AuthenticationResult(r), size)));
                }
                return ServerDecisionOutcome::Refuse(session, e);
            },
        }
        proof {
            assert(self.session.queued_control(session, (Body::AuthenticationResult(r), size)));
        }
        ServerDecisionOutcome::Accept(ServerReference { session, granted_capabilities: granted })
    }
}

/// An authenticated server session.
pub struct ServerReference<T> {
    pub session: Session<T>,
    pub granted_capabilities: Vec<String>,
}

impl<T> ServerReference<T> {
    pub fn granted_capabilities(&self) -> (granted: &[String])
        ensures
            granted@ == self.granted_capabilities@,
    {
        self.granted_capabilities.as_slice()
    }

    pub fn session(&self) -> (session: &Session<T>)
        ensures
            *session == self.session,
    {
        &self.session
    }

    pub fn session_mut(&mut self) -> (session: &mut Session<T>)
        ensures
            *session == old(self).session,
            final(self).session == *final(session),
            final(self).granted_capabilities == old(self).granted_capabilities,
    {
        &mut self.session
    }

    pub fn accept_tcp(&mut self, stream_id: u64, initial_receive_window: u32, now_ms: u64) -> (result:
        Result<(), ProtocolError>)
        requires
            old(self).session.wf(),
        ensures
            final(self).session.wf(),
            result == old(self).session.stream_op_result(
                old(self).session.active_server(),
                crate::gateway::negotiation::tcp_connect_name(),
                Body::TcpStreamOpened(
                    crate::gateway::wire::TcpStreamOpened { stream_id, initial_receive_window },
                ),
                |f: crate::gateway::flow::FlowController|
                    f.accept_remote_open_result(stream_id, initial_receive_window),
            ),
            result is Err ==> final(self).session == old(self).session,
    {
        self.session.accept_tcp(stream_id, initial_receive_window, now_ms)
    }

    pub fn reject_tcp(&mut self, rejection: TcpStreamRejected) -> (result: Result<(), ProtocolError>)
        requires
            old(self).session.wf(),
        ensures
            final(self).session.wf(),
            result == old(self).session.stream_op_result(
                old(self).session.active_server(),
                crate::gateway::negotiation::tcp_connect_name(),
                Body::TcpStreamRejected(rejection),
                |f: crate::gateway::flow::FlowController| if f.lookup_fails(rejection.stream_id) {
                    Err(ProtocolError::InvalidStreamId)
                } else {
                    Ok(())
                },
            ),
            result is Err ==> final(self).session == old(self).session,
    {
        self.session.reject_tcp(rejection)
    }

    pub fn resolve_result(&mut self, result: ResolveResult) -> (outcome: Result<(), ProtocolError>)
        requires
            old(self).session.wf(),
        ensures
            final(self).session.wf(),
            outcome == old(self).session.answer_result(result),
            outcome is Err ==> final(self).session == old(self).session,
    {
        self.session.resolve_result(result)
    }
}

} // verus!
