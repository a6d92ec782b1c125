//! The reference client handshake as a sequence of verified steps.
//!
//! The transport layer writes every queued frame, feeds each received body to
//! the step the state asks for, and obtains token material from the
//! application's authenticator for the binding the state hands out.
use vstd::prelude::*;

use crate::crypto::fill_random;
use crate::gateway::binding::{binding_result, session_nonce_binding};
use crate::gateway::error::ProtocolError;
use crate::gateway::framing::copy_bytes;
use crate::gateway::limits::ProtocolLimits;
use crate::gateway::negotiation::{
    capabilities_result,
    enabled_check_result, flow_control_bytes, required_prefix, selection_result,
    tcp_connect_bytes, verify_enabled_capabilities, verify_server_selection, version_range,
};
use crate::gateway::flow::flow_limits_valid;
use crate::gateway::session::{NegotiatedParameters, Session, SessionPhase};
use crate::gateway::validation::{client_hello_result, validate_client_hello};
use crate::gateway::wire::{
    AnonymityMode, Authenticate, Body, ClientHello, ErrorCode, OpenTcpStream, ProtocolVersion,
    ProtocolVersionRange, ResolveDomain, ServerHello,
};
use crate::text::{append_bytes, bytes_equal, clone_strings, string_from_ascii, text_bytes, texts};

verus! {

/// Token material from the application's anonymous-token scheme. It holds no
/// account identifier.
pub struct AuthenticationMaterial {
    pub anonymous_capability_token: Vec<u8>,
    pub proof_of_possession: Vec<u8>,
}

/// Reference client hello policy. The session nonce is drawn inside the
/// handshake and cannot be reused through this configuration.
pub struct ClientConfig {
    pub supported_versions: ProtocolVersionRange,
    pub capabilities: Vec<String>,
    pub anonymity_mode: AnonymityMode,
    pub desired_country: String,
    pub limits: ProtocolLimits,
}

fn required_capability(name: &[u8]) -> (s: String)
    requires
        forall|i: int| 0 <= i < name@.len() ==> #[trigger] name@[i] < 128,
    ensures
        text_bytes(s) == required_prefix() + name@,
{
    let mut bytes: Vec<u8> = vec![114u8, 101, 113, 117, 105, 114, 101, 100, 58];
    append_bytes(&mut bytes, name);
    proof {
        assert(bytes@ =~= required_prefix() + name@);
    }
    string_from_ascii(bytes.as_slice())
}

impl Default for ClientConfig {
    /// Version 1.0, TCP connect and flow control both required, standard
    /// anonymity, no country and the default limits.
    fn default() -> (config: Self)
        ensures
            config.supported_versions == (ProtocolVersionRange {
                minimum: Some(ProtocolVersion { major: 1, minor: 0 }),
                maximum: Some(ProtocolVersion { major: 1, minor: 0 }),
            }),
            texts(config.capabilities@) == seq![
                required_prefix() + crate::gateway::negotiation::tcp_connect_name(),
                required_prefix() + crate::gateway::negotiation::flow_control_name(),
            ],
            config.anonymity_mode == AnonymityMode::Standard,
            config.desired_country@.len() == 0,
            config.limits.validation_result() is Ok,
            config.limits.maximum_frame_size == 65536,
    {
        let tcp = tcp_connect_bytes();
        let flow = flow_control_bytes();
        let mut capabilities: Vec<String> = Vec::new();
        capabilities.push(required_capability(tcp.as_slice()));
        capabilities.push(required_capability(flow.as_slice()));
        proof {
            assert(texts(capabilities@) =~= seq![
                required_prefix() + crate::gateway::negotiation::tcp_connect_name(),
                required_prefix() + crate::gateway::negotiation::flow_control_name(),
            ]);
        }
        ClientConfig {
            supported_versions: version_range(1, 0, 0),
            capabilities,
            anonymity_mode: AnonymityMode::Standard,
            desired_country: String::new(),
            limits: ProtocolLimits::default(),
        }
    }
}

/// The hello a client sends for its configuration and nonce.
pub open spec fn hello_matches(hello: ClientHello, config: ClientConfig, nonce: Seq<u8>) -> bool {
    &&& hello.supported_versions == Some(config.supported_versions)
    &&& texts(hello.client_capabilities@) == texts(config.capabilities@)
    &&& hello.anonymity_mode == config.anonymity_mode
    &&& hello.desired_country@ == config.desired_country@
    &&& hello.session_nonce@ == nonce
    &&& hello.maximum_frame_size == config.limits.maximum_frame_size
    &&& hello.initial_connection_receive_window == config.limits.initial_connection_window
    &&& hello.initial_stream_receive_window == config.limits.initial_stream_window
}

/// A client session whose hello is queued.
pub struct ClientAwaitingServerHello<T> {
    pub session: Session<T>,
    pub config: ClientConfig,
    pub client_nonce: [u8; 32],
}

/// Opens a client session with the given hello nonce and queues the hello.
pub fn start_client_with_nonce<T>(transport: T, config: ClientConfig, client_nonce: [u8; 32]) -> (result:
    Result<ClientAwaitingServerHello<T>, ProtocolError>)
    ensures
        match result {
            Ok(state) => {
                &&& config.limits.validation_result() is Ok
                &&& config.supported_versions.maximum is Some
                &&& state.client_nonce == client_nonce
                &&& state.session.wf()
                &&& state.session.phase_spec() == SessionPhase::AwaitingServerHello
                &&& state.session.role() == crate::gateway::session::PeerRole::Client
                &&& state.session.limits() == config.limits
                &&& state.config.capabilities@ == config.capabilities@
                &&& state.config.limits == config.limits
                &&& state.config.supported_versions == config.supported_versions
                &&& exists|hello: ClientHello, size: usize|
                    hello_matches(hello, config, client_nonce@) && client_hello_result(hello) is Ok
                        && state.session.scheduler().control() == seq![(Body::ClientHello(hello), size)]
            },
            Err(e) => match config.limits.validation_result() {
                Err(f) => e == f,
                Ok(()) => config.supported_versions.maximum is None ==> e
                    == ProtocolError::InvalidField("maximum_version"),
            },
        },
{
    config.limits.validate()?;
    let initial_version = match config.supported_versions.maximum {
        Some(v) => v,
        None => return Err(ProtocolError::InvalidField("maximum_version")),
    };
    let hello = ClientHello {
        supported_versions: Some(config.supported_versions),
        client_capabilities: clone_strings(config.capabilities.as_slice()),
        anonymity_mode: config.anonymity_mode,
        desired_country: config.desired_country.clone(),
        session_nonce: copy_bytes(&client_nonce),
        maximum_frame_size: config.limits.maximum_frame_size as u32,
        initial_connection_receive_window: config.limits.initial_connection_window,
        initial_stream_receive_window: config.limits.initial_stream_window,
    };
    validate_client_hello(&hello)?;
    let ghost hello_spec = hello;
    let mut session = Session::new_client(transport, config.limits, initial_version)?;
    session.queue_handshake(Body::ClientHello(hello))?;
    proof {
        let size = session.scheduler().control()[0].1;
        assert(session.scheduler().control() =~= seq![(Body::ClientHello(hello_spec), size)]);
    }
    Ok(ClientAwaitingServerHello { session, config, client_nonce })
}

/// Draws the hello nonce, opens a client session and queues the hello.
pub fn start_client<T>(transport: T, config: ClientConfig) -> (result: Result<
    ClientAwaitingServerHello<T>,
    ProtocolError,
>)
    ensures
        result matches Ok(state) ==> state.session.wf() && state.session.phase_spec()
            == SessionPhase::AwaitingServerHello && state.session.limits() == state.config.limits
            && state.config.limits == config.limits && state.config.supported_versions
            == config.supported_versions && state.config.capabilities@ == config.capabilities@
            && exists|hello: ClientHello, size: usize|
            hello_matches(hello, config, state.client_nonce@) && client_hello_result(hello) is Ok
                && state.session.scheduler().control() == seq![(Body::ClientHello(hello), size)],
        result matches Err(e) ==> e == ProtocolError::EntropyUnavailable || match config.limits.validation_result() {
            Err(f) => e == f,
            Ok(()) => config.supported_versions.maximum is None ==> e == ProtocolError::InvalidField(
                "maximum_version",
            ),
        },
{
    let mut client_nonce = [0u8; 32];
    if !fill_random(&mut client_nonce) {
        return Err(ProtocolError::EntropyUnavailable);
    }
    start_client_with_nonce(transport, config, client_nonce)
}

/// What a client demands of a server hello before it authenticates.
pub open spec fn server_hello_check(
    config: ClientConfig,
    client_nonce: Seq<u8>,
    reply: ServerHello,
) -> Result<ProtocolVersion, ProtocolError> {
    if reply.echoed_client_nonce@ != client_nonce {
        Err(ProtocolError::InvalidSession)
    } else {
        match reply.supported_versions {
            None => Err(ProtocolError::InvalidField("server_supported_versions")),
            Some(server_range) => match reply.selected_version {
                None => Err(ProtocolError::InvalidField("selected_version")),
                Some(selected) => match selection_result(config.supported_versions, server_range) {
                    Err(e) => Err(e),
                    Ok(expected) => if expected != selected {
                        Err(ProtocolError::SilentDowngrade)
                    } else {
                        match enabled_check_result(
                            texts(config.capabilities@),
                            texts(reply.enabled_capabilities@),
                        ) {
                            Err(e) => Err(e),
                            Ok(()) => Ok(selected),
                        }
                    },
                },
            },
        }
    }
}

/// What a client makes of the first body the server sent.
pub open spec fn hello_reply_result(
    config: ClientConfig,
    client_nonce: Seq<u8>,
    body: Body,
) -> Result<ProtocolVersion, ProtocolError> {
    match body {
        Body::ServerHello(reply) => server_hello_check(config, client_nonce, reply),
        Body::Error(e) => if e.code == ErrorCode::ProtocolIncompatible {
            Err(ProtocolError::IncompatibleVersion)
        } else {
            Err(ProtocolError::ProtocolViolation("hello rejected"))
        },
        Body::GoAway(_) => Err(ProtocolError::ProtocolViolation("hello rejected")),
        _ => Err(ProtocolError::ProtocolViolation("expected ServerHello")),
    }
}

/// Whether the session accepts the parameters an accepted server hello fixes.
pub open spec fn client_configuration(config: ClientConfig, reply: ServerHello, selected: ProtocolVersion) -> Result<
    (),
    ProtocolError,
> {
    let limits = config.limits;
    let frame = if limits.maximum_frame_size <= reply.maximum_frame_size {
        limits.maximum_frame_size as int
    } else {
        reply.maximum_frame_size as int
    };
    let idle = if limits.idle_stream_timeout_ms <= reply.idle_stream_timeout_ms {
        limits.idle_stream_timeout_ms as int
    } else {
        reply.idle_stream_timeout_ms as int
    };
    let streams = if reply.maximum_concurrent_streams <= limits.maximum_concurrent_streams {
        reply.maximum_concurrent_streams as int
    } else {
        limits.maximum_concurrent_streams as int
    };
    if selected.major == 0 || reply.ephemeral_session_id@.len() != 16 {
        Err(ProtocolError::InvalidSession)
    } else if frame == 0 {
        Err(ProtocolError::InvalidField("negotiated_frame_size"))
    } else if !flow_limits_valid(
        reply.initial_connection_receive_window,
        limits.initial_connection_window,
        streams as usize,
    ) {
        Err(ProtocolError::InvalidField("flow_controller_limits"))
    } else {
        match capabilities_result(texts(reply.enabled_capabilities@)) {
            Err(e) => Err(e),
            Ok(()) => if idle == 0 {
                Err(ProtocolError::InvalidField("idle_stream_timeout"))
            } else {
                Ok(())
            },
        }
    }
}

/// A client session that accepted the server hello and needs token material
/// for the binding it holds.
pub struct ClientAwaitingMaterial<T> {
    pub session: Session<T>,
    pub binding: [u8; 32],
    pub enabled: Vec<String>,
}

impl<T> ClientAwaitingServerHello<T> {
    /// Checks the server hello, configures the session and computes the
    /// hello binding to authenticate with.
    pub fn on_server_hello(self, body: Body) -> (result: Result<ClientAwaitingMaterial<T>, ProtocolError>)
        requires
            self.session.wf(),
            self.session.phase_spec() == SessionPhase::AwaitingServerHello,
            self.session.limits() == self.config.limits,
        ensures
            match hello_reply_result(self.config, self.client_nonce@, body) {
                Err(e) => result == Err::<ClientAwaitingMaterial<T>, ProtocolError>(e),
                Ok(selected) => match result {
                    Ok(state) => body matches Body::ServerHello(reply) && {
                        &&& binding_result(
                            self.client_nonce@,
                            reply.server_nonce@,
                            reply.ephemeral_session_id@,
                            selected,
                        ) == Ok::<Seq<u8>, ProtocolError>(state.binding@)
                        &&& state.session.wf()
                        &&& state.session.phase_spec() == SessionPhase::AwaitingAuthenticationResult
                        &&& state.session.negotiated_version() == Some(selected)
                        &&& state.session.session_id_spec() == reply.ephemeral_session_id@
                        &&& state.session.capabilities() == texts(reply.enabled_capabilities@)
                        &&& texts(state.enabled@) == texts(reply.enabled_capabilities@)
                    },
                    Err(e) => body matches Body::ServerHello(reply) && match client_configuration(
                        self.config,
                        reply,
                        selected,
                    ) {
                        Err(f) => e == f,
                        Ok(()) => binding_result(
                            self.client_nonce@,
                            reply.server_nonce@,
                            reply.ephemeral_session_id@,
                            selected,
                        ) == Err::<Seq<u8>, ProtocolError>(e),
                    },
                },
            },
    {
        let reply = match body {
            Body::ServerHello(reply) => reply,
            Body::Error(e) => {
                if e.code == ErrorCode::ProtocolIncompatible {
                    return Err(ProtocolError::IncompatibleVersion);
                }
                return Err(ProtocolError::ProtocolViolation("hello rejected"));
            },
            Body::GoAway(_) => return Err(ProtocolError::ProtocolViolation("hello rejected")),
            _ => return Err(ProtocolError::ProtocolViolation("expected ServerHello")),
        };
        if !bytes_equal(reply.echoed_client_nonce.as_slice(), &self.client_nonce) {
            return Err(ProtocolError::InvalidSession);
        }
        let server_range = match reply.supported_versions {
            Some(range) => range,
            None => return Err(ProtocolError::InvalidField("server_supported_versions")),
        };
        let selected = match reply.selected_version {
            Some(v) => v,
            None => return Err(ProtocolError::InvalidField("selected_version")),
        };
        verify_server_selection(&self.config.supported_versions, &server_range, &selected)?;
        verify_enabled_capabilities(
            self.config.capabilities.as_slice(),
            reply.enabled_capabilities.as_slice(),
        )?;
        let limits = self.config.limits;
        let negotiated_frame_size = if limits.maximum_frame_size <= reply.maximum_frame_size as usize {
            limits.maximum_frame_size
        } else {
            reply.maximum_frame_size as usize
        };
        let idle = if limits.idle_stream_timeout_ms <= reply.idle_stream_timeout_ms as u64 {
            limits.idle_stream_timeout_ms
        } else {
            reply.idle_stream_timeout_ms as u64
        };
        let mut session = self.session;
        let parameters = NegotiatedParameters {
            selected_version: selected,
            session_id: copy_bytes(reply.ephemeral_session_id.as_slice()),
            maximum_frame_size: negotiated_frame_size,
            peer_connection_receive_window: reply.initial_connection_receive_window,
            local_connection_receive_window: self.config.limits.initial_connection_window,
            maximum_concurrent_streams: reply.maximum_concurrent_streams as usize,
            enabled_capabilities: clone_strings(reply.enabled_capabilities.as_slice()),
            idle_stream_timeout_ms: idle,
            next_phase: SessionPhase::AwaitingAuthenticationResult,
        };
        proof {
            assert(session.configure_result(parameters) == client_configuration(self.config, reply, selected));
        }
        session.configure_negotiated(parameters)?;
        let binding = session_nonce_binding(
            &self.client_nonce,
            reply.server_nonce.as_slice(),
            reply.ephemeral_session_id.as_slice(),
            &selected,
        )?;
        Ok(
            ClientAwaitingMaterial {
                session,
                binding,
                enabled: reply.enabled_capabilities,
            },
        )
    }
}

/// A client session that sent `Authenticate` and awaits the result.
pub struct ClientAwaitingResult<T> {
    pub session: Session<T>,
    pub enabled: Vec<String>,
}

impl<T> ClientAwaitingMaterial<T> {
    /// Queues `Authenticate` with the material and the binding.
    pub fn on_material(self, material: AuthenticationMaterial) -> (result: Result<
        ClientAwaitingResult<T>,
        ProtocolError,
    >)
        requires
            self.session.wf(),
        ensures
            !self.session.in_handshake() ==> (result matches Err(e) && e == ProtocolError::ProtocolViolation(
                "handshake already complete",
            )),
            self.session.in_handshake() ==> exists|m: Authenticate|
                m.anonymous_capability_token@ == material.anonymous_capability_token@
                    && m.proof_of_possession@ == material.proof_of_possession@
                    && m.session_nonce_binding@ == self.binding@ && match self.session.control_queue_result(
                    Body::Authenticate(m),
                ) {
                    Err(e) => result matches Err(f) && f == e,
                    Ok(_) => result is Ok,
                },
            result matches Ok(state) ==> {
                &&& state.session.wf()
                &&& state.session.phase_spec() == self.session.phase_spec()
                &&& state.enabled@ == self.enabled@
                &&& exists|m: Authenticate, size: usize|
                    m.anonymous_capability_token@ == material.anonymous_capability_token@
                        && m.proof_of_possession@ == material.proof_of_possession@
                        && m.session_nonce_binding@ == self.binding@
                        && state.session.scheduler().control() == self.session.scheduler().control().push(
                        (Body::Authenticate(m), size),
                    )
            },
    {
        let m = Authenticate {
            anonymous_capability_token: material.anonymous_capability_token,
            proof_of_possession: material.proof_of_possession,
            session_nonce_binding: copy_bytes(&self.binding),
        };
        let ghost m_spec = m;
        let mut session = self.session;
        proof {
            assert(m_spec.session_nonce_binding@ == self.binding@);
        }
        session.queue_handshake(Body::Authenticate(m))?;
        proof {
            let size = session.scheduler().control().last().1;
            assert(session.scheduler().control() == self.session.scheduler().control().push(
                (Body::Authenticate(m_spec), size),
            ));
        }
        Ok(ClientAwaitingResult { session, enabled: self.enabled })
    }
}

/// What a client makes of the body answering `Authenticate`.
pub open spec fn authentication_reply_result(enabled: Seq<Seq<u8>>, body: Body) -> Result<
    (),
    ProtocolError,
> {
    match body {
        Body::AuthenticationResult(r) => if !r.accepted {
            Err(ProtocolError::AuthenticationRejected)
        } else {
            enabled_check_result(enabled, texts(r.granted_capabilities@))
        },
        Body::Error(_) | Body::GoAway(_) => Err(ProtocolError::AuthenticationRejected),
        _ => Err(ProtocolError::ProtocolViolation("expected AuthenticationResult")),
    }
}

impl<T> ClientAwaitingResult<T> {
    /// Accepts the authentication result and activates the session with the
    /// granted capabilities.
    pub fn on_authentication_result(self, body: Body) -> (result: Result<
        ClientReference<T>,
        ProtocolError,
    >)
        requires
            self.session.wf(),
            self.session.phase_spec() == SessionPhase::AwaitingAuthenticationResult,
            self.session.capabilities() == texts(self.enabled@),
        ensures
            match authentication_reply_result(texts(self.enabled@), body) {
                Err(e) => result == Err::<ClientReference<T>, ProtocolError>(e),
                Ok(()) => match body {
                    Body::AuthenticationResult(r) => match self.session.grant_result(
                        texts(r.granted_capabilities@),
                    ) {
                        Err(e) => result == Err::<ClientReference<T>, ProtocolError>(e),
                        Ok(()) => match result {
                            Ok(reference) => reference.session.wf() && reference.session.phase_spec()
                                == SessionPhase::Active && texts(reference.granted_capabilities@)
                                == texts(r.granted_capabilities@) && reference.session.capabilities()
                                == texts(r.granted_capabilities@),
                            Err(_) => false,
                        },
                    },
                    _ => false,
                },
            },
    {
        let reply = match body {
            Body::AuthenticationResult(r) => r,
            Body::Error(_) | Body::GoAway(_) => return Err(ProtocolError::AuthenticationRejected),
            _ => return Err(ProtocolError::ProtocolViolation("expected AuthenticationResult")),
        };
        if !reply.accepted {
            return Err(ProtocolError::AuthenticationRejected);
        }
        verify_enabled_capabilities(self.enabled.as_slice(), reply.granted_capabilities.as_slice())?;
        let mut session = self.session;
        let result = session.set_granted_capabilities(reply.granted_capabilities.as_slice());
        result?;
        session.mark_active()?;
        Ok(ClientReference { session, granted_capabilities: reply.granted_capabilities })
    }
}

/// An authenticated client session.
pub struct ClientReference<T> {
    pub session: Session<T>,
    pub granted_capabilities: Vec<String>,
}

impl<T> ClientReference<T> {
    pub fn granted_capabilities(&self) -> (granted: &[String])
        ensures
            granted@ == self.granted_capabilities@,
    {
        self.granted_capabilities.as_slice()
    }

    pub fn session(&self) -> (session: &Session<T>)
        ensures
            *session == self.session,
    {
        &self.session
    }

    pub fn session_mut(&mut self) -> (session: &mut Session<T>)
        ensures
            *session == old(self).session,
            final(self).session == *final(session),
            final(self).granted_capabilities == old(self).granted_capabilities,
    {
        &mut self.session
    }

    pub fn open_tcp(&mut self, request: OpenTcpStream, now_ms: u64) -> (result: Result<
        (),
        ProtocolError,
    >)
        requires
            old(self).session.wf(),
        ensures
            final(self).session.wf(),
            result == old(self).session.stream_op_result(
                old(self).session.active_client(),
                crate::gateway::negotiation::tcp_connect_name(),
                Body::OpenTcpStream(request),
                |f: crate::gateway::flow::FlowController|
                    f.open_result(request.stream_id, 0, request.initial_receive_window),
            ),
            result is Err ==> final(self).session == old(self).session,
    {
        self.session.open_tcp(request, now_ms)
    }

    pub fn resolve(&mut self, request: ResolveDomain) -> (result: Result<(), ProtocolError>)
        requires
            old(self).session.wf(),
        ensures
            final(self).session.wf(),
            result == old(self).session.resolve_result_spec(request),
            result is Err ==> final(self).session == old(self).session,
    {
        self.session.resolve(request)
    }
}

} // verus!
