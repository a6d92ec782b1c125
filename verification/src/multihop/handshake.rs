//! The inter-gateway handshake, one step per message: the entry sends a
//! hello, checks the exit's hello and finished binding and answers with its
//! own; the exit checks the hello against replays, answers with its hello and
//! binding and checks the entry's. Each step takes the frame that arrived and
//! returns the frames to send; the caller moves the bytes.
use vstd::prelude::*;
use vstd::utf8::encode_utf8;

use crate::crypto::{fill_random, sha256, sha256_of};
use crate::gateway::flow::{flow_limits_valid, FlowController};
use crate::multihop::error::{protocol_error_code, Error, ErrorCode};
use crate::multihop::identity::{clone_identity, IdentityPurpose, PeerIdentity};
use crate::gateway::error::ProtocolError;
use crate::gateway::flow::{fresh_stream, StreamPhase, StreamView};
use crate::gateway::limits::MAX_DATA_PAYLOAD;
use crate::multihop::protocol::{
    active_envelope_valid, known_nonzero_code, open_session_valid, validate_active_envelope,
    validate_open_session, validate_ping, CloseCode, CloseSession, Data, GoAway, HalfClose,
    OpenSession, RejectCode, SessionOpened, SessionRejected, WindowUpdate,
    client_hello_check, finished_check, fresh_entries, replay_check, handshake_config_valid, server_hello_valid,
    validate_client_hello, validate_finished_frame, validate_handshake_identity,
    validate_server_hello, version_from_wire, version_selection, version_to_wire, Body,
    ClientHello, Finished, HandshakeConfig, InterGatewayFrame, ProtocolLimits, ReplayCache,
    ServerHello, WireVersion, BINDING_SIZE, CONNECTION_ID_SIZE, NONCE_SIZE,
};
use crate::multihop::route::{GatewayRole, ProtocolVersion};
use crate::text::{append_bytes, be16, be16_bytes};

verus! {

/// The label that opens every finished transcript.
pub open spec fn finished_domain() -> Seq<u8> {
    seq![
        111u8, 110, 105, 111, 110, 114, 111, 117, 116, 101, 45, 105, 110, 116, 101, 114, 45, 103,
        97, 116, 101, 119, 97, 121, 45, 102, 105, 110, 105, 115, 104, 101, 100, 45, 118, 49, 0,
    ]
}

pub open spec fn server_direction() -> Seq<u8> {
    seq![115u8, 101, 114, 118, 101, 114]
}

pub open spec fn client_direction() -> Seq<u8> {
    seq![99u8, 108, 105, 101, 110, 116]
}

/// The bytes a finished binding hashes: the label, the TLS channel binding,
/// both nonces, the connection ID, the version, both service IDs with their
/// 16-bit lengths, and the direction.
pub open spec fn finished_transcript(
    channel_binding: Seq<u8>,
    client_nonce: Seq<u8>,
    server_nonce: Seq<u8>,
    connection_id: Seq<u8>,
    version: ProtocolVersion,
    entry_id: Seq<u8>,
    exit_id: Seq<u8>,
    direction: Seq<u8>,
) -> Seq<u8> {
    finished_domain() + channel_binding + client_nonce + server_nonce + connection_id + be16(
        version.major,
    ) + be16(version.minor) + be16(entry_id.len() as u16) + entry_id + be16(exit_id.len() as u16)
        + exit_id + direction
}

/// The finished binding of one direction of a handshake: the SHA-256 digest
/// of its transcript.
pub open spec fn finished_value(
    channel_binding: Seq<u8>,
    client_nonce: Seq<u8>,
    server_nonce: Seq<u8>,
    connection_id: Seq<u8>,
    version: ProtocolVersion,
    entry: PeerIdentity,
    exit: PeerIdentity,
    direction: Seq<u8>,
) -> Seq<u8> {
    sha256_of(
        finished_transcript(
            channel_binding,
            client_nonce,
            server_nonce,
            connection_id,
            version,
            encode_utf8(entry.service_id@),
            encode_utf8(exit.service_id@),
            direction,
        ),
    )
}

fn domain_bytes() -> (bytes: Vec<u8>)
    ensures
        bytes@ == finished_domain(),
{
    let bytes = vec![
        111u8, 110, 105, 111, 110, 114, 111, 117, 116, 101, 45, 105, 110, 116, 101, 114, 45, 103,
        97, 116, 101, 119, 97, 121, 45, 102, 105, 110, 105, 115, 104, 101, 100, 45, 118, 49, 0,
    ];
    assert(bytes@ =~= finished_domain());
    bytes
}

fn direction_bytes(server: bool) -> (bytes: Vec<u8>)
    ensures
        bytes@ == if server { server_direction() } else { client_direction() },
{
    if server {
        let bytes = vec![115u8, 101, 114, 118, 101, 114];
        assert(bytes@ =~= server_direction());
        bytes
    } else {
        let bytes = vec![99u8, 108, 105, 101, 110, 116];
        assert(bytes@ =~= client_direction());
        bytes
    }
}

/// The finished binding that both gateways compute for one direction.
pub fn finished_binding(
    channel_binding: &[u8; BINDING_SIZE],
    client_nonce: &[u8; NONCE_SIZE],
    server_nonce: &[u8; NONCE_SIZE],
    connection_id: &[u8; CONNECTION_ID_SIZE],
    version: ProtocolVersion,
    entry: &PeerIdentity,
    exit: &PeerIdentity,
    direction: &[u8],
) -> (binding: [u8; BINDING_SIZE])
    ensures
        binding@ == finished_value(
            channel_binding@,
            client_nonce@,
            server_nonce@,
            connection_id@,
            version,
            *entry,
            *exit,
            direction@,
        ),
{
    let mut transcript = domain_bytes();
    append_bytes(&mut transcript, channel_binding.as_slice());
    append_bytes(&mut transcript, client_nonce.as_slice());
    append_bytes(&mut transcript, server_nonce.as_slice());
    append_bytes(&mut transcript, connection_id.as_slice());
    let major = be16_bytes(version.major);
    append_bytes(&mut transcript, major.as_slice());
    let minor = be16_bytes(version.minor);
    append_bytes(&mut transcript, minor.as_slice());
    let entry_id = entry.service_id.as_str().as_bytes();
    let entry_length = be16_bytes(entry_id.len() as u16);
    append_bytes(&mut transcript, entry_length.as_slice());
    append_bytes(&mut transcript, entry_id);
    let exit_id = exit.service_id.as_str().as_bytes();
    let exit_length = be16_bytes(exit_id.len() as u16);
    append_bytes(&mut transcript, exit_length.as_slice());
    append_bytes(&mut transcript, exit_id);
    append_bytes(&mut transcript, direction);
    proof {
        assert(transcript@ =~= finished_transcript(
            channel_binding@,
            client_nonce@,
            server_nonce@,
            connection_id@,
            version,
            encode_utf8(entry.service_id@),
            encode_utf8(exit.service_id@),
            direction@,
        ));
    }
    sha256(transcript.as_slice())
}

/// What the handshake checks before any message: the configuration, the
/// local identity's role and the peer's.
pub open spec fn setup_error(
    local: PeerIdentity,
    peer: PeerIdentity,
    config: HandshakeConfig,
    local_role: GatewayRole,
    peer_role: GatewayRole,
) -> Option<ErrorCode> {
    if !handshake_config_valid(config) {
        Some(ErrorCode::InvalidConfiguration)
    } else if !(local.role == local_role && local.purpose == IdentityPurpose::InterGatewayDataPlane) {
        Some(ErrorCode::WrongRole)
    } else if !(peer.role == peer_role && peer.purpose == IdentityPurpose::InterGatewayDataPlane) {
        Some(ErrorCode::WrongRole)
    } else {
        None
    }
}

fn check_setup(
    local: &PeerIdentity,
    peer: &PeerIdentity,
    config: &HandshakeConfig,
    local_role: GatewayRole,
    peer_role: GatewayRole,
) -> (result: Result<(), Error>)
    ensures
        match setup_error(*local, *peer, *config, local_role, peer_role) {
            Some(code) => result == Err::<(), Error>(Error { code }),
            None => result is Ok,
        },
{
    config.validate()?;
    validate_handshake_identity(local, local_role)?;
    validate_handshake_identity(peer, peer_role)?;
    Ok(())
}

fn random32() -> (bytes: Result<[u8; 32], Error>)
    ensures
        bytes matches Err(e) ==> e.code == ErrorCode::Internal,
{
    let mut value = [0u8;32];
    if !fill_random(&mut value) {
        return Err(Error::new(ErrorCode::Internal));
    }
    Ok(value)
}

fn random16() -> (bytes: Result<[u8; 16], Error>)
    ensures
        bytes matches Err(e) ==> e.code == ErrorCode::Internal,
{
    let mut value = [0u8;16];
    if !fill_random(&mut value) {
        return Err(Error::new(ErrorCode::Internal));
    }
    Ok(value)
}

fn array_to_vec<const N: usize>(bytes: &[u8; N]) -> (v: Vec<u8>)
    ensures
        v@ == bytes@,
{
    let mut v: Vec<u8> = Vec::new();
    append_bytes(&mut v, bytes.as_slice());
    proof {
        assert(Seq::<u8>::empty() + bytes@ =~= bytes@);
    }
    v
}

fn vec_to_array32(bytes: &Vec<u8>) -> (a: [u8; 32])
    requires
        bytes@.len() == 32,
    ensures
        a@ == bytes@,
{
    let mut a = [0u8;32];
    let mut i: usize = 0;
    while i < 32
        invariant
            i <= 32,
            bytes@.len() == 32,
            forall|j: int| 0 <= j < i ==> a@[j] == bytes@[j],
        decreases 32 - i,
    {
        a.set(i, bytes[i]);
        i = i + 1;
    }
    assert(a@ =~= bytes@);
    a
}

fn vec_to_array16(bytes: &Vec<u8>) -> (a: [u8; 16])
    requires
        bytes@.len() == 16,
    ensures
        a@ == bytes@,
{
    let mut a = [0u8;16];
    let mut i: usize = 0;
    while i < 16
        invariant
            i <= 16,
            bytes@.len() == 16,
            forall|j: int| 0 <= j < i ==> a@[j] == bytes@[j],
        decreases 16 - i,
    {
        a.set(i, bytes[i]);
        i = i + 1;
    }
    assert(a@ =~= bytes@);
    a
}

/// The entry's state after sending its hello.
pub struct EntryHello {
    pub client_nonce: [u8; NONCE_SIZE],
    pub hello: ClientHello,
}

/// The wire form of a version.
pub open spec fn wire_of(version: ProtocolVersion) -> WireVersion {
    WireVersion { major: version.major as u32, minor: version.minor as u32 }
}

/// The hello an entry sends: its service ID, role 1, the configured version
/// range and windows, the nonce and the time.
pub open spec fn entry_hello_fields(
    hello: ClientHello,
    local: PeerIdentity,
    config: HandshakeConfig,
    nonce: Seq<u8>,
    now_unix_seconds: u64,
) -> bool {
    &&& hello.service_id == local.service_id
    &&& hello.role == 1
    &&& hello.minimum_version == Some(wire_of(config.minimum_version))
    &&& hello.maximum_version == Some(wire_of(config.maximum_version))
    &&& hello.nonce@ == nonce
    &&& hello.unix_seconds == now_unix_seconds as i64
    &&& hello.initial_connection_receive_window == config.limits.initial_connection_window
    &&& hello.initial_session_receive_window == config.limits.initial_session_window
}

fn entry_hello(
    local: &PeerIdentity,
    config: &HandshakeConfig,
    nonce: &[u8; NONCE_SIZE],
    now_unix_seconds: u64,
) -> (hello: ClientHello)
    requires
        now_unix_seconds <= i64::MAX,
    ensures
        entry_hello_fields(hello, *local, *config, nonce@, now_unix_seconds),
{
    ClientHello {
        service_id: local.service_id.clone(),
        role: 1,
        minimum_version: Some(version_to_wire(config.minimum_version)),
        maximum_version: Some(version_to_wire(config.maximum_version)),
        nonce: array_to_vec(nonce),
        unix_seconds: now_unix_seconds as i64,
        initial_connection_receive_window: config.limits.initial_connection_window,
        initial_session_receive_window: config.limits.initial_session_window,
    }
}

/// What an entry hello frame carries: frame 1 without a connection ID, at
/// the configured maximum version, with the hello itself.
pub open spec fn entry_hello_sent(
    state: EntryHello,
    frame: InterGatewayFrame,
    local: PeerIdentity,
    config: HandshakeConfig,
    now_unix_seconds: u64,
) -> bool {
    &&& entry_hello_fields(state.hello, local, config, state.client_nonce@, now_unix_seconds)
    &&& frame.sequence == 1
    &&& frame.version == Some(wire_of(config.maximum_version))
    &&& frame.connection_id@.len() == 0
    &&& frame.body matches Some(Body::ClientHello(sent)) && entry_hello_fields(
        sent,
        local,
        config,
        state.client_nonce@,
        now_unix_seconds,
    )
}

/// Starts the entry side with the given nonce: after the setup checks, a
/// hello with that nonce, the local service ID, the configured versions and
/// windows, and the time, sent as frame 1 without a connection ID. A time
/// beyond `i64` is `Internal`.
pub fn start_entry_handshake_with_nonce(
    local: &PeerIdentity,
    peer: &PeerIdentity,
    config: &HandshakeConfig,
    client_nonce: [u8; NONCE_SIZE],
    now_unix_seconds: u64,
) -> (result: Result<(EntryHello, InterGatewayFrame), Error>)
    ensures
        match setup_error(*local, *peer, *config, GatewayRole::Entry, GatewayRole::Exit) {
            Some(code) => result == Err::<(EntryHello, InterGatewayFrame), Error>(Error { code }),
            None => if now_unix_seconds > i64::MAX {
                result == Err::<(EntryHello, InterGatewayFrame), Error>(
                    Error { code: ErrorCode::Internal },
                )
            } else {
                result matches Ok((state, frame)) && state.client_nonce == client_nonce
                    && entry_hello_sent(state, frame, *local, *config, now_unix_seconds)
            },
        },
{
    check_setup(local, peer, config, GatewayRole::Entry, GatewayRole::Exit)?;
    if now_unix_seconds > 9223372036854775807u64 {
        return Err(Error::new(ErrorCode::Internal));
    }
    let hello = entry_hello(local, config, &client_nonce, now_unix_seconds);
    let sent = entry_hello(local, config, &client_nonce, now_unix_seconds);
    let frame = InterGatewayFrame {
        sequence: 1,
        version: Some(version_to_wire(config.maximum_version)),
        connection_id: Vec::new(),
        body: Some(Body::ClientHello(sent)),
    };
    Ok((EntryHello { client_nonce, hello }, frame))
}

/// Starts the entry side with a fresh nonce, as
/// `start_entry_handshake_with_nonce` does; a failing entropy source is
/// `Internal`.
pub fn start_entry_handshake(
    local: &PeerIdentity,
    peer: &PeerIdentity,
    config: &HandshakeConfig,
    now_unix_seconds: u64,
) -> (result: Result<(EntryHello, InterGatewayFrame), Error>)
    ensures
        match setup_error(*local, *peer, *config, GatewayRole::Entry, GatewayRole::Exit) {
            Some(code) => result == Err::<(EntryHello, InterGatewayFrame), Error>(Error { code }),
            None => match result {
                Ok((state, frame)) => now_unix_seconds <= i64::MAX && entry_hello_sent(
                    state,
                    frame,
                    *local,
                    *config,
                    now_unix_seconds,
                ),
                Err(e) => e.code == ErrorCode::Internal,
            },
        },
{
    check_setup(local, peer, config, GatewayRole::Entry, GatewayRole::Exit)?;
    let client_nonce = random32()?;
    start_entry_handshake_with_nonce(local, peer, config, client_nonce, now_unix_seconds)
}

/// The entry's state after a valid server hello.
pub struct EntryAwaitingFinished {
    pub client_nonce: [u8; NONCE_SIZE],
    pub server_nonce: [u8; NONCE_SIZE],
    pub connection_id: [u8; CONNECTION_ID_SIZE],
    pub version: ProtocolVersion,
    pub peer_connection_window: u32,
    pub peer_maximum_sessions: u32,
}

/// Whether a frame is the exit's valid answer to `hello`: frame 1 with a
/// 16-byte connection ID, carrying a valid server hello whose selected
/// version and connection ID the frame repeats.
pub open spec fn server_hello_frame_valid(
    hello: ClientHello,
    frame: InterGatewayFrame,
    peer: PeerIdentity,
    config: HandshakeConfig,
) -> bool {
    &&& frame.sequence == 1
    &&& frame.connection_id@.len() == CONNECTION_ID_SIZE
    &&& frame.body matches Some(Body::ServerHello(server))
    &&& server_hello_valid(server, peer, hello, config)
    &&& frame.version == server.selected_version
    &&& frame.connection_id@ == server.connection_id@
}

/// Checks the exit's hello; every failure is a protocol violation.
pub fn entry_on_server_hello(
    state: &EntryHello,
    frame: &InterGatewayFrame,
    peer: &PeerIdentity,
    config: &HandshakeConfig,
) -> (result: Result<EntryAwaitingFinished, Error>)
    ensures
        result is Ok <==> server_hello_frame_valid(state.hello, *frame, *peer, *config),
        result matches Err(e) ==> e.code == ErrorCode::ProtocolViolation,
        result matches Ok(next) ==> frame.body matches Some(Body::ServerHello(server)) && {
            &&& next.client_nonce == state.client_nonce
            &&& next.server_nonce@ == server.server_nonce@
            &&& next.connection_id@ == server.connection_id@
            &&& server.selected_version == Some(wire_of(next.version))
            &&& next.peer_connection_window == server.initial_connection_receive_window
            &&& next.peer_maximum_sessions == server.maximum_concurrent_sessions
        },
{
    if frame.sequence != 1 || frame.connection_id.len() != CONNECTION_ID_SIZE {
        return Err(Error::new(ErrorCode::ProtocolViolation));
    }
    let server = match &frame.body {
        Some(Body::ServerHello(server)) => server,
        _ => {
            return Err(Error::new(ErrorCode::ProtocolViolation));
        },
    };
    validate_server_hello(server, peer, &state.hello, config)?;
    let selected = match &server.selected_version {
        Some(v) => v,
        None => {
            return Err(Error::new(ErrorCode::ProtocolViolation));
        },
    };
    let version = version_from_wire(selected)?;
    let same_version = match &frame.version {
        Some(v) => v.major == selected.major && v.minor == selected.minor,
        None => false,
    };
    if !same_version || !crate::text::bytes_equal(frame.connection_id.as_slice(), server.connection_id.as_slice()) {
        return Err(Error::new(ErrorCode::ProtocolViolation));
    }
    Ok(EntryAwaitingFinished {
        client_nonce: state.client_nonce,
        server_nonce: vec_to_array32(&server.server_nonce),
        connection_id: vec_to_array16(&server.connection_id),
        version,
        peer_connection_window: server.initial_connection_receive_window,
        peer_maximum_sessions: server.maximum_concurrent_sessions,
    })
}

/// An authenticated inter-gateway connection: the transport, the peer, the
/// negotiated version and connection ID, the sequence counters, the limits,
/// the flow-control ledger and whether either side is draining.
pub struct ProtocolConnection<T> {
    transport: T,
    local_role: GatewayRole,
    peer: PeerIdentity,
    version: ProtocolVersion,
    connection_id: [u8; CONNECTION_ID_SIZE],
    next_send_sequence: u64,
    next_receive_sequence: u64,
    limits: ProtocolLimits,
    flow: FlowController,
    local_draining: bool,
    peer_draining: bool,
}

impl<T> ProtocolConnection<T> {
    pub closed spec fn local_role_spec(&self) -> GatewayRole {
        self.local_role
    }

    pub closed spec fn peer_spec(&self) -> PeerIdentity {
        self.peer
    }

    pub closed spec fn version_spec(&self) -> ProtocolVersion {
        self.version
    }

    pub closed spec fn connection_id_spec(&self) -> Seq<u8> {
        self.connection_id@
    }

    pub closed spec fn send_sequence(&self) -> u64 {
        self.next_send_sequence
    }

    pub closed spec fn receive_sequence(&self) -> u64 {
        self.next_receive_sequence
    }

    pub closed spec fn limits_spec(&self) -> ProtocolLimits {
        self.limits
    }

    pub closed spec fn flow_spec(&self) -> FlowController {
        self.flow
    }

    pub closed spec fn local_draining_spec(&self) -> bool {
        self.local_draining
    }

    pub closed spec fn peer_draining_spec(&self) -> bool {
        self.peer_draining
    }

    pub closed spec fn wf(&self) -> bool {
        self.flow.wf()
    }

    pub fn peer(&self) -> (peer: &PeerIdentity)
        ensures
            *peer == self.peer_spec(),
    {
        &self.peer
    }

    pub fn version(&self) -> (version: ProtocolVersion)
        ensures
            version == self.version_spec(),
    {
        self.version
    }

    pub fn is_draining(&self) -> (draining: bool)
        ensures
            draining == (self.local_draining_spec() || self.peer_draining_spec()),
    {
        self.local_draining || self.peer_draining
    }

    pub fn flow(&self) -> (flow: &FlowController)
        ensures
            *flow == self.flow_spec(),
    {
        &self.flow
    }

    pub fn into_inner(self) -> (transport: T)
    {
        self.transport
    }
}

/// Whether a handshake ends in a connection with these properties, fresh at
/// sequence 3 on both sides, with no draining.
pub open spec fn fresh_connection<T>(
    connection: ProtocolConnection<T>,
    local_role: GatewayRole,
    peer: PeerIdentity,
    version: ProtocolVersion,
    connection_id: Seq<u8>,
    limits: ProtocolLimits,
) -> bool {
    &&& connection.wf()
    &&& connection.local_role_spec() == local_role
    &&& connection.peer_spec() == peer
    &&& connection.version_spec() == version
    &&& connection.connection_id_spec() == connection_id
    &&& connection.send_sequence() == 3
    &&& connection.receive_sequence() == 3
    &&& connection.limits_spec() == limits
    &&& !connection.local_draining_spec()
    &&& !connection.peer_draining_spec()
}

/// Finishes the entry side: the exit's finished binding must be frame 2 and
/// match the expected server binding; the answer is frame 2 with the client
/// binding. The flow-control ledger starts from the exit's connection window,
/// the configured one, and the smaller session limit.
pub fn entry_finish<T>(
    state: &EntryAwaitingFinished,
    frame: &InterGatewayFrame,
    channel_binding: &[u8; BINDING_SIZE],
    local: &PeerIdentity,
    peer: &PeerIdentity,
    config: &HandshakeConfig,
    transport: T,
) -> (result: Result<(InterGatewayFrame, ProtocolConnection<T>), Error>)
    ensures
        ({
            let expected = finished_value(
                channel_binding@,
                state.client_nonce@,
                state.server_nonce@,
                state.connection_id@,
                state.version,
                *local,
                *peer,
                server_direction(),
            );
            let sessions = if config.limits.maximum_concurrent_sessions
                <= state.peer_maximum_sessions as usize {
                config.limits.maximum_concurrent_sessions
            } else {
                state.peer_maximum_sessions as usize
            };
            match finished_check(*frame, 2, state.version, state.connection_id@, expected) {
                Err(code) => result == Err::<(InterGatewayFrame, ProtocolConnection<T>), Error>(Error { code }),
                Ok(_) => if !flow_limits_valid(
                    state.peer_connection_window,
                    config.limits.initial_connection_window,
                    sessions,
                ) {
                    result == Err::<(InterGatewayFrame, ProtocolConnection<T>), Error>(
                        flow_error(ProtocolError::InvalidField("flow_controller_limits")),
                    )
                } else {
                    result matches Ok((answer, connection)) && {
                        &&& answer.sequence == 2
                        &&& answer.version == Some(wire_of(state.version))
                        &&& answer.connection_id@ == state.connection_id@
                        &&& answer.body matches Some(Body::Finished(f)) && f.exporter_binding@ == finished_value(
                            channel_binding@,
                            state.client_nonce@,
                            state.server_nonce@,
                            state.connection_id@,
                            state.version,
                            *local,
                            *peer,
                            client_direction(),
                        )
                        &&& fresh_connection(connection, GatewayRole::Entry, *peer, state.version, state.connection_id@, config.limits)
                        &&& connection.flow_spec().connection_send() == state.peer_connection_window
                        &&& connection.flow_spec().connection_receive() == config.limits.initial_connection_window
                        &&& connection.flow_spec().stream_limit() == sessions
                        &&& connection.flow_spec().streams() == Map::<u64, crate::gateway::flow::StreamView>::empty()
                    }
                },
            }
        }),
{
    let server_label = direction_bytes(true);
    let expected = finished_binding(
        channel_binding,
        &state.client_nonce,
        &state.server_nonce,
        &state.connection_id,
        state.version,
        local,
        peer,
        server_label.as_slice(),
    );
    validate_finished_frame(frame, 2, state.version, &state.connection_id, &expected)?;
    let client_label = direction_bytes(false);
    let binding = finished_binding(
        channel_binding,
        &state.client_nonce,
        &state.server_nonce,
        &state.connection_id,
        state.version,
        local,
        peer,
        client_label.as_slice(),
    );
    let answer = InterGatewayFrame {
        sequence: 2,
        version: Some(version_to_wire(state.version)),
        connection_id: array_to_vec(&state.connection_id),
        body: Some(Body::Finished(Finished { exporter_binding: array_to_vec(&binding) })),
    };
    let peer_sessions = state.peer_maximum_sessions as usize;
    let sessions = if config.limits.maximum_concurrent_sessions <= peer_sessions {
        config.limits.maximum_concurrent_sessions
    } else {
        peer_sessions
    };
    let flow = match FlowController::new(
        state.peer_connection_window,
        config.limits.initial_connection_window,
        sessions,
    ) {
        Ok(flow) => flow,
        Err(e) => {
            let converted = Error::from(e);
            proof {
                assert(converted == flow_error(ProtocolError::InvalidField("flow_controller_limits")));
            }
            return Err(converted);
        },
    };
    let connection = ProtocolConnection {
        transport,
        local_role: GatewayRole::Entry,
        peer: clone_identity(peer),
        version: state.version,
        connection_id: state.connection_id,
        next_send_sequence: 3,
        next_receive_sequence: 3,
        limits: config.limits,
        flow,
        local_draining: false,
        peer_draining: false,
    };
    Ok((answer, connection))
}

/// The exit's state after answering a hello.
pub struct ExitAwaitingFinished {
    pub client_nonce: [u8; NONCE_SIZE],
    pub server_nonce: [u8; NONCE_SIZE],
    pub connection_id: [u8; CONNECTION_ID_SIZE],
    pub version: ProtocolVersion,
    pub peer_connection_window: u32,
}

/// What the exit's first frames are, for its state: the server hello as
/// frame 1 and the server binding as frame 2, both with the new connection ID
/// and the selected version.
pub open spec fn exit_answer(
    state: ExitAwaitingFinished,
    hello_frame: InterGatewayFrame,
    finished_frame: InterGatewayFrame,
    channel_binding: Seq<u8>,
    local: PeerIdentity,
    peer: PeerIdentity,
    config: HandshakeConfig,
) -> bool {
    &&& hello_frame.sequence == 1
    &&& hello_frame.version == Some(wire_of(state.version))
    &&& hello_frame.connection_id@ == state.connection_id@
    &&& hello_frame.body matches Some(Body::ServerHello(server)) && {
        &&& server.service_id == local.service_id
        &&& server.role == 2
        &&& server.selected_version == Some(wire_of(state.version))
        &&& server.echoed_client_nonce@ == state.client_nonce@
        &&& server.server_nonce@ == state.server_nonce@
        &&& server.connection_id@ == state.connection_id@
        &&& server.maximum_concurrent_sessions == config.limits.maximum_concurrent_sessions as u32
        &&& server.initial_connection_receive_window == config.limits.initial_connection_window
        &&& server.initial_session_receive_window == config.limits.initial_session_window
    }
    &&& finished_frame.sequence == 2
    &&& finished_frame.version == Some(wire_of(state.version))
    &&& finished_frame.connection_id@ == state.connection_id@
    &&& finished_frame.body matches Some(Body::Finished(f)) && f.exporter_binding@ == finished_value(
        channel_binding,
        state.client_nonce@,
        state.server_nonce@,
        state.connection_id@,
        state.version,
        peer,
        local,
        server_direction(),
    )
}

/// Answers an entry's hello on the exit side: after the setup checks, the
/// hello must be frame 1 without a connection ID, valid for the peer at this
/// time, and its nonce new to the replay cache. The answer carries the
/// highest common version, a fresh nonce and a fresh connection ID.
pub fn exit_on_client_hello(
    frame: &InterGatewayFrame,
    local: &PeerIdentity,
    peer: &PeerIdentity,
    config: &HandshakeConfig,
    replay_cache: &mut ReplayCache,
    channel_binding: &[u8; BINDING_SIZE],
    now_ms: u64,
    now_unix_seconds: u64,
) -> (result: Result<(ExitAwaitingFinished, InterGatewayFrame, InterGatewayFrame), Error>)
    ensures
        final(replay_cache).ttl() == old(replay_cache).ttl(),
        final(replay_cache).capacity() == old(replay_cache).capacity(),
        match setup_error(*local, *peer, *config, GatewayRole::Exit, GatewayRole::Entry) {
            Some(code) => result == Err::<(ExitAwaitingFinished, InterGatewayFrame, InterGatewayFrame), Error>(
                Error { code },
            ) && final(replay_cache).remembered() == old(replay_cache).remembered(),
            None => if frame.sequence != 1 || frame.connection_id@.len() != 0 || !(frame.body matches Some(
                Body::ClientHello(_),
            )) {
                result == Err::<(ExitAwaitingFinished, InterGatewayFrame, InterGatewayFrame), Error>(
                    Error { code: ErrorCode::ProtocolViolation },
                ) && final(replay_cache).remembered() == old(replay_cache).remembered()
            } else {
                let hello = frame.body->Some_0->ClientHello_0;
                match client_hello_check(hello, *peer, *config, now_unix_seconds) {
                    Err(code) => result == Err::<(ExitAwaitingFinished, InterGatewayFrame, InterGatewayFrame), Error>(
                        Error { code },
                    ) && final(replay_cache).remembered() == old(replay_cache).remembered(),
                    Ok(_) => {
                        let fresh = fresh_entries(old(replay_cache).remembered(), now_ms, old(replay_cache).ttl());
                        match replay_check(fresh, old(replay_cache).capacity(), peer.service_id@, hello.nonce@) {
                            Err(code) => result == Err::<
                                (ExitAwaitingFinished, InterGatewayFrame, InterGatewayFrame),
                                Error,
                            >(Error { code }) && final(replay_cache).remembered() == fresh,
                            Ok(()) => {
                                &&& final(replay_cache).remembered() == fresh.push(
                                    (peer.service_id@, hello.nonce@, now_ms),
                                )
                                &&& match result {
                                    Ok((state, hello_frame, finished_frame)) => {
                                        &&& version_selection(hello, *config) == Ok::<ProtocolVersion, ErrorCode>(
                                            state.version,
                                        )
                                        &&& state.client_nonce@ == hello.nonce@
                                        &&& state.peer_connection_window == hello.initial_connection_receive_window
                                        &&& exit_answer(
                                            state,
                                            hello_frame,
                                            finished_frame,
                                            channel_binding@,
                                            *local,
                                            *peer,
                                            *config,
                                        )
                                    },
                                    Err(e) => e.code == ErrorCode::Internal,
                                }
                            },
                        }
                    },
                }
            },
        },
{
    check_setup(local, peer, config, GatewayRole::Exit, GatewayRole::Entry)?;
    if frame.sequence != 1 || frame.connection_id.len() != 0 {
        return Err(Error::new(ErrorCode::ProtocolViolation));
    }
    let hello = match &frame.body {
        Some(Body::ClientHello(hello)) => hello,
        _ => {
            return Err(Error::new(ErrorCode::ProtocolViolation));
        },
    };
    validate_client_hello(hello, peer, config, now_unix_seconds)?;
    replay_cache.check_and_insert(peer.service_id.as_str(), hello.nonce.as_slice(), now_ms)?;
    let server_nonce = random32()?;
    let connection_id = random16()?;
    exit_answer_hello(hello, local, peer, config, channel_binding, server_nonce, connection_id)
}

/// The exit's answer to a checked hello with the given nonce and connection
/// ID: the highest common version, the server hello as frame 1 and the server
/// binding as frame 2. A nonce of the wrong size is a protocol violation, and
/// no common version is the version selection's error.
pub fn exit_answer_hello(
    hello: &ClientHello,
    local: &PeerIdentity,
    peer: &PeerIdentity,
    config: &HandshakeConfig,
    channel_binding: &[u8; BINDING_SIZE],
    server_nonce: [u8; NONCE_SIZE],
    connection_id: [u8; CONNECTION_ID_SIZE],
) -> (result: Result<(ExitAwaitingFinished, InterGatewayFrame, InterGatewayFrame), Error>)
    ensures
        if hello.nonce@.len() != NONCE_SIZE {
            result == Err::<(ExitAwaitingFinished, InterGatewayFrame, InterGatewayFrame), Error>(
                Error { code: ErrorCode::ProtocolViolation },
            )
        } else {
            match version_selection(*hello, *config) {
                Err(code) => result == Err::<
                    (ExitAwaitingFinished, InterGatewayFrame, InterGatewayFrame),
                    Error,
                >(Error { code }),
                Ok(v) => result matches Ok((state, hello_frame, finished_frame)) && {
                    &&& state.version == v
                    &&& state.client_nonce@ == hello.nonce@
                    &&& state.server_nonce == server_nonce
                    &&& state.connection_id == connection_id
                    &&& state.peer_connection_window == hello.initial_connection_receive_window
                    &&& exit_answer(
                        state,
                        hello_frame,
                        finished_frame,
                        channel_binding@,
                        *local,
                        *peer,
                        *config,
                    )
                },
            }
        },
{
    if hello.nonce.len() != NONCE_SIZE {
        return Err(Error::new(ErrorCode::ProtocolViolation));
    }
    let client_nonce = vec_to_array32(&hello.nonce);
    let selected = crate::multihop::protocol::select_version(hello, config)?;
    let server = ServerHello {
        service_id: local.service_id.clone(),
        role: 2,
        selected_version: Some(version_to_wire(selected)),
        echoed_client_nonce: array_to_vec(&client_nonce),
        server_nonce: array_to_vec(&server_nonce),
        connection_id: array_to_vec(&connection_id),
        maximum_concurrent_sessions: config.limits.maximum_concurrent_sessions as u32,
        initial_connection_receive_window: config.limits.initial_connection_window,
        initial_session_receive_window: config.limits.initial_session_window,
    };
    let hello_frame = InterGatewayFrame {
        sequence: 1,
        version: Some(version_to_wire(selected)),
        connection_id: array_to_vec(&connection_id),
        body: Some(Body::ServerHello(server)),
    };
    let server_label = direction_bytes(true);
    let binding = finished_binding(
        channel_binding,
        &client_nonce,
        &server_nonce,
        &connection_id,
        selected,
        peer,
        local,
        server_label.as_slice(),
    );
    let finished_frame = InterGatewayFrame {
        sequence: 2,
        version: Some(version_to_wire(selected)),
        connection_id: array_to_vec(&connection_id),
        body: Some(Body::Finished(Finished { exporter_binding: array_to_vec(&binding) })),
    };
    let state = ExitAwaitingFinished {
        client_nonce,
        server_nonce,
        connection_id,
        version: selected,
        peer_connection_window: hello.initial_connection_receive_window,
    };
    Ok((state, hello_frame, finished_frame))
}

/// Finishes the exit side: the entry's binding must be frame 2 and match the
/// expected client binding. The flow-control ledger starts from the entry's
/// connection window, the configured one and the configured session limit.
pub fn exit_finish<T>(
    state: &ExitAwaitingFinished,
    frame: &InterGatewayFrame,
    channel_binding: &[u8; BINDING_SIZE],
    local: &PeerIdentity,
    peer: &PeerIdentity,
    config: &HandshakeConfig,
    transport: T,
) -> (result: Result<ProtocolConnection<T>, Error>)
    ensures
        ({
            let expected = finished_value(
                channel_binding@,
                state.client_nonce@,
                state.server_nonce@,
                state.connection_id@,
                state.version,
                *peer,
                *local,
                client_direction(),
            );
            match finished_check(*frame, 2, state.version, state.connection_id@, expected) {
                Err(code) => result == Err::<ProtocolConnection<T>, Error>(Error { code }),
                Ok(_) => if !flow_limits_valid(
                    state.peer_connection_window,
                    config.limits.initial_connection_window,
                    config.limits.maximum_concurrent_sessions,
                ) {
                    result == Err::<ProtocolConnection<T>, Error>(
                        flow_error(ProtocolError::InvalidField("flow_controller_limits")),
                    )
                } else {
                    result matches Ok(connection) && {
                        &&& fresh_connection(connection, GatewayRole::Exit, *peer, state.version, state.connection_id@, config.limits)
                        &&& connection.flow_spec().connection_send() == state.peer_connection_window
                        &&& connection.flow_spec().connection_receive() == config.limits.initial_connection_window
                        &&& connection.flow_spec().stream_limit() == config.limits.maximum_concurrent_sessions
                        &&& connection.flow_spec().streams() == Map::<u64, crate::gateway::flow::StreamView>::empty()
                    }
                },
            }
        }),
{
    let client_label = direction_bytes(false);
    let expected = finished_binding(
        channel_binding,
        &state.client_nonce,
        &state.server_nonce,
        &state.connection_id,
        state.version,
        peer,
        local,
        client_label.as_slice(),
    );
    validate_finished_frame(frame, 2, state.version, &state.connection_id, &expected)?;
    let flow = match FlowController::new(
        state.peer_connection_window,
        config.limits.initial_connection_window,
        config.limits.maximum_concurrent_sessions,
    ) {
        Ok(flow) => flow,
        Err(e) => {
            let converted = Error::from(e);
            proof {
                assert(converted == flow_error(ProtocolError::InvalidField("flow_controller_limits")));
            }
            return Err(converted);
        },
    };
    Ok(ProtocolConnection {
        transport,
        local_role: GatewayRole::Exit,
        peer: clone_identity(peer),
        version: state.version,
        connection_id: state.connection_id,
        next_send_sequence: 3,
        next_receive_sequence: 3,
        limits: config.limits,
        flow,
        local_draining: false,
        peer_draining: false,
    })
}

/// Both gateways bind the same transcript: the server binding frame an exit
/// sends is accepted by an entry that holds the same channel binding, nonces,
/// connection ID, version and identities.
pub proof fn lemma_server_binding_accepted(
    state: ExitAwaitingFinished,
    hello_frame: InterGatewayFrame,
    finished_frame: InterGatewayFrame,
    channel_binding: Seq<u8>,
    exit: PeerIdentity,
    entry: PeerIdentity,
    config: HandshakeConfig,
)
    requires
        exit_answer(state, hello_frame, finished_frame, channel_binding, exit, entry, config),
    ensures
        finished_check(
            finished_frame,
            2,
            state.version,
            state.connection_id@,
            finished_value(
                channel_binding,
                state.client_nonce@,
                state.server_nonce@,
                state.connection_id@,
                state.version,
                entry,
                exit,
                server_direction(),
            ),
        ) == Ok::<(), ErrorCode>(()),
{
}

/// The error a flow-control failure becomes.
pub open spec fn flow_error(error: ProtocolError) -> Error {
    Error { code: protocol_error_code(error) }
}

/// Everything of a connection but its flow ledger and the counters named is
/// unchanged.
pub open spec fn same_setting<T>(a: ProtocolConnection<T>, b: ProtocolConnection<T>) -> bool {
    &&& a.local_role_spec() == b.local_role_spec()
    &&& a.peer_spec() == b.peer_spec()
    &&& a.version_spec() == b.version_spec()
    &&& a.connection_id_spec() == b.connection_id_spec()
    &&& a.limits_spec() == b.limits_spec()
}

/// A frame of the connection: its next send sequence, version and ID.
pub open spec fn connection_frame<T>(c: ProtocolConnection<T>, frame: InterGatewayFrame, body: Body) -> bool {
    &&& frame.sequence == c.send_sequence()
    &&& frame.version == Some(wire_of(c.version_spec()))
    &&& frame.connection_id@ == c.connection_id_spec()
    &&& frame.body == Some(body)
}

pub open spec fn wire_reject_code(code: RejectCode) -> i32 {
    match code {
        RejectCode::Unspecified => 0,
        RejectCode::Policy => 1,
        RejectCode::ResourceExhausted => 2,
        RejectCode::Draining => 3,
        RejectCode::Revoked => 4,
        RejectCode::Incompatible => 5,
    }
}

pub open spec fn wire_close_code(code: CloseCode) -> i32 {
    match code {
        CloseCode::Unspecified => 0,
        CloseCode::Finished => 1,
        CloseCode::Cancelled => 2,
        CloseCode::Timeout => 3,
        CloseCode::Protocol => 4,
        CloseCode::Revoked => 5,
    }
}

impl<T> ProtocolConnection<T> {
    /// The frame for `body` at the next send sequence; running out of
    /// sequence numbers is a protocol violation.
    fn outgoing(&mut self, body: Body) -> (result: Result<InterGatewayFrame, Error>)
        ensures
            same_setting(*old(self), *final(self)),
            final(self).flow_spec() == old(self).flow_spec(),
            final(self).receive_sequence() == old(self).receive_sequence(),
            final(self).local_draining_spec() == old(self).local_draining_spec(),
            final(self).peer_draining_spec() == old(self).peer_draining_spec(),
            old(self).send_sequence() < u64::MAX ==> (result matches Ok(frame) && connection_frame(
                *old(self),
                frame,
                body,
            )) && final(self).send_sequence() == old(self).send_sequence() + 1,
            old(self).send_sequence() == u64::MAX ==> result == Err::<InterGatewayFrame, Error>(
                Error { code: ErrorCode::ProtocolViolation },
            ) && final(self).send_sequence() == old(self).send_sequence(),
    {
        if self.next_send_sequence == u64::MAX {
            return Err(Error::new(ErrorCode::ProtocolViolation));
        }
        let frame = InterGatewayFrame {
            sequence: self.next_send_sequence,
            version: Some(version_to_wire(self.version)),
            connection_id: array_to_vec(&self.connection_id),
            body: Some(body),
        };
        self.next_send_sequence = self.next_send_sequence + 1;
        Ok(frame)
    }

    /// Opens a session from the entry side: only an entry that is not
    /// draining may (`Draining` otherwise); the request must be valid at
    /// this time; the session is recorded as opening and the request framed.
    pub fn open_session(&mut self, request: OpenSession, now_unix_seconds: i64, now_ms: u64) -> (result: Result<InterGatewayFrame, Error>)
        requires
            old(self).wf(),
        ensures
            final(self).wf(),
            same_setting(*old(self), *final(self)),
            old(self).local_role_spec() != GatewayRole::Entry || old(self).local_draining_spec()
                || old(self).peer_draining_spec() ==> result == Err::<InterGatewayFrame, Error>(
                Error { code: ErrorCode::Draining },
            ),
            old(self).local_role_spec() == GatewayRole::Entry && !old(self).local_draining_spec()
                && !old(self).peer_draining_spec() ==> if !open_session_valid(
                request,
                old(self).limits_spec(),
                now_unix_seconds,
            ) {
                result == Err::<InterGatewayFrame, Error>(Error { code: ErrorCode::ProtocolViolation })
            } else {
                match old(self).flow_spec().open_result(request.session_id, 0, request.initial_receive_window) {
                    Err(e) => result == Err::<InterGatewayFrame, Error>(flow_error(e)),
                    Ok(_) => old(self).flow_spec().opened(
                        final(self).flow_spec(),
                        request.session_id,
                        fresh_stream(StreamPhase::OpeningLocal, 0, request.initial_receive_window, now_ms),
                    ) && (old(self).send_sequence() < u64::MAX ==> (result matches Ok(frame)
                        && connection_frame(*old(self), frame, Body::OpenSession(request)))),
                }
            },
    {
        if self.local_role != GatewayRole::Entry || self.local_draining || self.peer_draining {
            return Err(Error::new(ErrorCode::Draining));
        }
        validate_open_session(&request, &self.limits, now_unix_seconds)?;
        if let Err(e) = self.flow.open_local(request.session_id, request.initial_receive_window, now_ms) {
            return Err(Error::from(e));
        }
        self.outgoing(Body::OpenSession(request))
    }

    /// Accepts a session on the exit side, unless the exit is draining, with
    /// the configured session window.
    pub fn accept_session(&mut self, session_id: u64, now_ms: u64) -> (result: Result<InterGatewayFrame, Error>)
        requires
            old(self).wf(),
        ensures
            final(self).wf(),
            same_setting(*old(self), *final(self)),
            old(self).local_role_spec() != GatewayRole::Exit || old(self).local_draining_spec() ==> result
                == Err::<InterGatewayFrame, Error>(Error { code: ErrorCode::Draining }),
            old(self).local_role_spec() == GatewayRole::Exit && !old(self).local_draining_spec() ==> {
                let window = old(self).limits_spec().initial_session_window;
                match old(self).flow_spec().accept_remote_open_result(session_id, window) {
                    Err(e) => result == Err::<InterGatewayFrame, Error>(flow_error(e)),
                    Ok(_) => old(self).flow_spec().with_stream(
                        final(self).flow_spec(),
                        session_id,
                        StreamView {
                            phase: StreamPhase::Open,
                            receive_window: window as u64,
                            last_activity_ms: now_ms,
                            ..old(self).flow_spec().streams()[session_id]
                        },
                    ) && (old(self).send_sequence() < u64::MAX ==> (result matches Ok(frame) && connection_frame(
                        *old(self),
                        frame,
                        Body::SessionOpened(SessionOpened { session_id, initial_receive_window: window }),
                    ))),
                }
            },
    {
        if self.local_role != GatewayRole::Exit || self.local_draining {
            return Err(Error::new(ErrorCode::Draining));
        }
        let window = self.limits.initial_session_window;
        if let Err(e) = self.flow.accept_remote_open(session_id, window, now_ms) {
            return Err(Error::from(e));
        }
        self.outgoing(Body::SessionOpened(SessionOpened { session_id, initial_receive_window: window }))
    }

    /// Rejects a session on the exit side with a specified code.
    pub fn reject_session(&mut self, session_id: u64, code: RejectCode) -> (result: Result<InterGatewayFrame, Error>)
        requires
            old(self).wf(),
        ensures
            final(self).wf(),
            same_setting(*old(self), *final(self)),
            old(self).local_role_spec() != GatewayRole::Exit || code == RejectCode::Unspecified ==> result
                == Err::<InterGatewayFrame, Error>(Error { code: ErrorCode::ProtocolViolation }),
            old(self).local_role_spec() == GatewayRole::Exit && code != RejectCode::Unspecified ==> if old(
                self,
            ).flow_spec().lookup_fails(session_id) {
                result == Err::<InterGatewayFrame, Error>(flow_error(ProtocolError::InvalidStreamId))
            } else {
                final(self).flow_spec().streams() == old(self).flow_spec().streams().remove(session_id)
                    && (old(self).send_sequence() < u64::MAX ==> (result matches Ok(frame) && connection_frame(
                    *old(self),
                    frame,
                    Body::SessionRejected(SessionRejected { session_id, code: wire_reject_code(code) }),
                )))
            },
    {
        if self.local_role != GatewayRole::Exit || code == RejectCode::Unspecified {
            return Err(Error::new(ErrorCode::ProtocolViolation));
        }
        if let Err(e) = self.flow.reject_or_close(session_id) {
            return Err(Error::from(e));
        }
        let number: i32 = match code {
            RejectCode::Unspecified => 0,
            RejectCode::Policy => 1,
            RejectCode::ResourceExhausted => 2,
            RejectCode::Draining => 3,
            RejectCode::Revoked => 4,
            RejectCode::Incompatible => 5,
        };
        self.outgoing(Body::SessionRejected(SessionRejected { session_id, code: number }))
    }

    /// Frames one bounded DATA frame from the front of `payload` and returns
    /// how much it took. `Backpressure` means the caller must wait for a
    /// window update.
    pub fn send_data(&mut self, session_id: u64, payload: &[u8], now_ms: u64) -> (result: Result<(usize, InterGatewayFrame), Error>)
        requires
            old(self).wf(),
        ensures
            final(self).wf(),
            same_setting(*old(self), *final(self)),
            payload@.len() == 0 ==> result is Err && result->Err_0.code == ErrorCode::ProtocolViolation,
            payload@.len() > 0 ==> {
                let consumed = if payload@.len() <= MAX_DATA_PAYLOAD { payload@.len() as usize } else { MAX_DATA_PAYLOAD };
                match old(self).flow_spec().debit_send_result(session_id, consumed) {
                    Err(e) => result == Err::<(usize, InterGatewayFrame), Error>(flow_error(e)),
                    Ok(_) => final(self).flow_spec().connection_send() == old(self).flow_spec().connection_send() - consumed
                        && old(self).flow_spec().with_stream(
                        final(self).flow_spec(),
                        session_id,
                        StreamView {
                            send_window: (old(self).flow_spec().streams()[session_id].send_window - consumed) as u64,
                            last_activity_ms: now_ms,
                            ..old(self).flow_spec().streams()[session_id]
                        },
                    ) && (old(self).send_sequence() < u64::MAX ==> (result matches Ok((n, frame)) && n == consumed
                        && frame.sequence == old(self).send_sequence() && frame.connection_id@
                        == old(self).connection_id_spec() && (frame.body matches Some(Body::Data(d))
                        && d.session_id == session_id && d.payload@ == payload@.subrange(0, consumed as int)))),
                }
            },
    {
        if payload.len() == 0 {
            return Err(Error::new(ErrorCode::ProtocolViolation));
        }
        let consumed = if payload.len() <= MAX_DATA_PAYLOAD { payload.len() } else { MAX_DATA_PAYLOAD };
        if let Err(e) = self.flow.debit_send(session_id, consumed, now_ms) {
            return Err(Error::from(e));
        }
        let mut chunk: Vec<u8> = Vec::new();
        let mut i: usize = 0;
        while i < consumed
            invariant
                consumed <= payload@.len(),
                i <= consumed,
                chunk@ == payload@.subrange(0, i as int),
            decreases consumed - i,
        {
            chunk.push(payload[i]);
            proof {
                assert(payload@.subrange(0, i + 1) =~= payload@.subrange(0, i as int).push(payload@[i as int]));
            }
            i = i + 1;
        }
        let frame = self.outgoing(Body::Data(Data { session_id, payload: chunk }))?;
        Ok((consumed, frame))
    }

    /// Grants the peer more receive credit and frames the window update.
    pub fn grant_receive_credit(&mut self, session_id: u64, credit: u32, now_ms: u64) -> (result: Result<InterGatewayFrame, Error>)
        requires
            old(self).wf(),
        ensures
            final(self).wf(),
            same_setting(*old(self), *final(self)),
            match old(self).flow_spec().credit_result(
                session_id,
                credit,
                false,
                ProtocolError::InvalidField("window_credit"),
            ) {
                Err(e) => result == Err::<InterGatewayFrame, Error>(flow_error(e)),
                Ok(_) => old(self).flow_spec().credited(final(self).flow_spec(), session_id, credit, false, now_ms)
                    && (old(self).send_sequence() < u64::MAX ==> (result matches Ok(frame) && connection_frame(
                    *old(self),
                    frame,
                    Body::WindowUpdate(WindowUpdate { session_id, credit }),
                ))),
            },
    {
        if let Err(e) = self.flow.grant_receive_credit(session_id, credit, now_ms) {
            return Err(Error::from(e));
        }
        self.outgoing(Body::WindowUpdate(WindowUpdate { session_id, credit }))
    }

    /// Closes the local sending direction of a session.
    pub fn half_close(&mut self, session_id: u64, now_ms: u64) -> (result: Result<InterGatewayFrame, Error>)
        requires
            old(self).wf(),
        ensures
            final(self).wf(),
            same_setting(*old(self), *final(self)),
            match old(self).flow_spec().half_close_result(session_id, true) {
                Err(e) => result == Err::<InterGatewayFrame, Error>(flow_error(e)),
                Ok(_) => old(self).flow_spec().with_stream(
                    final(self).flow_spec(),
                    session_id,
                    StreamView {
                        local_half_closed: true,
                        last_activity_ms: now_ms,
                        ..old(self).flow_spec().streams()[session_id]
                    },
                ) && (old(self).send_sequence() < u64::MAX ==> (result matches Ok(frame) && connection_frame(
                    *old(self),
                    frame,
                    Body::HalfClose(HalfClose { session_id }),
                ))),
            },
    {
        if let Err(e) = self.flow.local_half_close(session_id, now_ms) {
            return Err(Error::from(e));
        }
        self.outgoing(Body::HalfClose(HalfClose { session_id }))
    }

    /// Closes a session with a specified code.
    pub fn close_session(&mut self, session_id: u64, code: CloseCode) -> (result: Result<InterGatewayFrame, Error>)
        requires
            old(self).wf(),
        ensures
            final(self).wf(),
            same_setting(*old(self), *final(self)),
            code == CloseCode::Unspecified ==> result == Err::<InterGatewayFrame, Error>(
                Error { code: ErrorCode::ProtocolViolation },
            ),
            code != CloseCode::Unspecified ==> if old(self).flow_spec().lookup_fails(session_id) {
                result == Err::<InterGatewayFrame, Error>(flow_error(ProtocolError::InvalidStreamId))
            } else {
                final(self).flow_spec().streams() == old(self).flow_spec().streams().remove(session_id)
                    && (old(self).send_sequence() < u64::MAX ==> (result matches Ok(frame) && connection_frame(
                    *old(self),
                    frame,
                    Body::CloseSession(CloseSession { session_id, code: wire_close_code(code) }),
                )))
            },
    {
        if code == CloseCode::Unspecified {
            return Err(Error::new(ErrorCode::ProtocolViolation));
        }
        if let Err(e) = self.flow.reject_or_close(session_id) {
            return Err(Error::from(e));
        }
        let number: i32 = match code {
            CloseCode::Unspecified => 0,
            CloseCode::Finished => 1,
            CloseCode::Cancelled => 2,
            CloseCode::Timeout => 3,
            CloseCode::Protocol => 4,
            CloseCode::Revoked => 5,
        };
        self.outgoing(Body::CloseSession(CloseSession { session_id, code: number }))
    }

    /// Starts draining: a timeout of 1 to 30000 milliseconds is required
    /// (`InvalidConfiguration` otherwise); the GoAway names the highest
    /// session ID seen.
    pub fn begin_draining(&mut self, timeout_ms: u64) -> (result: Result<InterGatewayFrame, Error>)
        requires
            old(self).wf(),
        ensures
            final(self).wf(),
            same_setting(*old(self), *final(self)),
            final(self).flow_spec() == old(self).flow_spec(),
            timeout_ms == 0 || timeout_ms > 30000 ==> result == Err::<InterGatewayFrame, Error>(
                Error { code: ErrorCode::InvalidConfiguration },
            ) && !final(self).local_draining_spec() == !old(self).local_draining_spec(),
            0 < timeout_ms <= 30000 ==> final(self).local_draining_spec() && (old(self).send_sequence()
                < u64::MAX ==> (result matches Ok(frame) && connection_frame(
                *old(self),
                frame,
                Body::GoAway(
                    GoAway {
                        last_accepted_session_id: old(self).flow_spec().highest_stream_id(),
                        drain_timeout_ms: timeout_ms as u32,
                    },
                ),
            ))),
    {
        if timeout_ms == 0 || timeout_ms > 30000 {
            return Err(Error::new(ErrorCode::InvalidConfiguration));
        }
        self.local_draining = true;
        let last = self.flow.maximum_seen_stream_id();
        self.outgoing(Body::GoAway(GoAway { last_accepted_session_id: last, drain_timeout_ms: timeout_ms as u32 }))
    }
}

/// What a checked inbound body does to the connection: the error it is
/// refused with, if any. Flow-control effects are stated by `next_event`.
pub open spec fn inbound_refusal<T>(c: ProtocolConnection<T>, body: Body, now_unix_seconds: i64) -> Option<Error> {
    let f = c.flow_spec();
    match body {
        Body::OpenSession(request) => if c.local_role_spec() != GatewayRole::Exit || c.local_draining_spec()
            || !open_session_valid(request, c.limits_spec(), now_unix_seconds) {
            Some(Error { code: ErrorCode::ProtocolViolation })
        } else {
            match f.open_result(request.session_id, request.initial_receive_window, 0) {
                Err(e) => Some(flow_error(e)),
                Ok(_) => None,
            }
        },
        Body::SessionOpened(opened) => if c.local_role_spec() != GatewayRole::Entry {
            Some(Error { code: ErrorCode::ProtocolViolation })
        } else {
            match f.confirm_local_open_result(opened.session_id, opened.initial_receive_window) {
                Err(e) => Some(flow_error(e)),
                Ok(_) => None,
            }
        },
        Body::SessionRejected(rejected) => if c.local_role_spec() != GatewayRole::Entry
            || !known_nonzero_code(rejected.code) {
            Some(Error { code: ErrorCode::ProtocolViolation })
        } else if f.lookup_fails(rejected.session_id) {
            Some(flow_error(ProtocolError::InvalidStreamId))
        } else {
            None
        },
        Body::Data(data) => if data.payload@.len() == 0 || data.payload@.len() > MAX_DATA_PAYLOAD {
            Some(Error { code: ErrorCode::ProtocolViolation })
        } else if !f.debit_receive_allowed(data.session_id, data.payload@.len() as usize) {
            Some(flow_error(ProtocolError::FlowControlViolation))
        } else {
            None
        },
        Body::WindowUpdate(update) => match f.credit_result(
            update.session_id,
            update.credit,
            true,
            ProtocolError::FlowControlViolation,
        ) {
            Err(e) => Some(flow_error(e)),
            Ok(_) => None,
        },
        Body::HalfClose(close) => match f.half_close_result(close.session_id, false) {
            Err(e) => Some(flow_error(e)),
            Ok(_) => None,
        },
        Body::CloseSession(close) => if !known_nonzero_code(close.code) {
            Some(Error { code: ErrorCode::ProtocolViolation })
        } else if f.lookup_fails(close.session_id) {
            Some(flow_error(ProtocolError::InvalidStreamId))
        } else {
            None
        },
        Body::Ping(ping) => if 8 <= ping.nonce@.len() <= 32 {
            None
        } else {
            Some(Error { code: ErrorCode::ProtocolViolation })
        },
        Body::Pong(pong) => if 8 <= pong.nonce@.len() <= 32 {
            None
        } else {
            Some(Error { code: ErrorCode::ProtocolViolation })
        },
        Body::GoAway(go_away) => if go_away.drain_timeout_ms == 0 || go_away.drain_timeout_ms > 30000 {
            Some(Error { code: ErrorCode::ProtocolViolation })
        } else {
            None
        },
        _ => Some(Error { code: ErrorCode::ProtocolViolation }),
    }
}

/// The flow ledger after an accepted inbound body.
pub open spec fn inbound_flow(before: FlowController, after: FlowController, body: Body, now_ms: u64) -> bool {
    match body {
        Body::OpenSession(request) => before.opened(
            after,
            request.session_id,
            fresh_stream(StreamPhase::OpeningRemote, request.initial_receive_window, 0, now_ms),
        ),
        Body::SessionOpened(opened) => before.with_stream(
            after,
            opened.session_id,
            StreamView {
                phase: StreamPhase::Open,
                send_window: opened.initial_receive_window as u64,
                last_activity_ms: now_ms,
                ..before.streams()[opened.session_id]
            },
        ),
        Body::SessionRejected(rejected) => after.streams() == before.streams().remove(rejected.session_id),
        Body::Data(data) => before.with_stream(
            after,
            data.session_id,
            StreamView {
                receive_window: (before.streams()[data.session_id].receive_window - data.payload@.len()) as u64,
                last_activity_ms: now_ms,
                ..before.streams()[data.session_id]
            },
        ) && after.connection_receive() == before.connection_receive() - data.payload@.len(),
        Body::WindowUpdate(update) => before.credited(after, update.session_id, update.credit, true, now_ms),
        Body::HalfClose(close) => before.with_stream(
            after,
            close.session_id,
            StreamView {
                remote_half_closed: true,
                last_activity_ms: now_ms,
                ..before.streams()[close.session_id]
            },
        ),
        Body::CloseSession(close) => after.streams() == before.streams().remove(close.session_id),
        _ => after == before,
    }
}

impl<T> ProtocolConnection<T> {
    /// Accepts the next inbound frame of an active connection: it must be
    /// the expected sequence number with the negotiated version and
    /// connection ID; the body must suit the local role and pass its checks
    /// and the flow-control ledger. A GoAway marks the peer as draining.
    /// Handshake messages are protocol violations here.
    pub fn next_event(&mut self, frame: InterGatewayFrame, now_ms: u64, now_unix_seconds: i64) -> (result: Result<Body, Error>)
        requires
            old(self).wf(),
        ensures
            final(self).wf(),
            same_setting(*old(self), *final(self)),
            final(self).send_sequence() == old(self).send_sequence(),
            final(self).local_draining_spec() == old(self).local_draining_spec(),
            !active_envelope_valid(frame, old(self).receive_sequence(), old(self).version_spec(), old(self).connection_id_spec())
                || old(self).receive_sequence() == u64::MAX || frame.body is None ==> result
                == Err::<Body, Error>(Error { code: ErrorCode::ProtocolViolation }),
            active_envelope_valid(frame, old(self).receive_sequence(), old(self).version_spec(), old(self).connection_id_spec())
                && old(self).receive_sequence() < u64::MAX ==> final(self).receive_sequence()
                == old(self).receive_sequence() + 1,
            active_envelope_valid(frame, old(self).receive_sequence(), old(self).version_spec(), old(self).connection_id_spec())
                && old(self).receive_sequence() < u64::MAX && frame.body is Some ==> {
                let body = frame.body->Some_0;
                match inbound_refusal(*old(self), body, now_unix_seconds) {
                    Some(e) => result == Err::<Body, Error>(e),
                    None => {
                        &&& result == Ok::<Body, Error>(body)
                        &&& inbound_flow(old(self).flow_spec(), final(self).flow_spec(), body, now_ms)
                        &&& final(self).peer_draining_spec() == (old(self).peer_draining_spec()
                            || body is GoAway)
                    },
                }
            },
    {
        validate_active_envelope(&frame, self.next_receive_sequence, self.version, &self.connection_id)?;
        if self.next_receive_sequence == u64::MAX {
            return Err(Error::new(ErrorCode::ProtocolViolation));
        }
        self.next_receive_sequence = self.next_receive_sequence + 1;
        let body = match frame.body {
            Some(body) => body,
            None => {
                return Err(Error::new(ErrorCode::ProtocolViolation));
            },
        };
        match &body {
            Body::OpenSession(request) => {
                if self.local_role != GatewayRole::Exit || self.local_draining {
                    return Err(Error::new(ErrorCode::ProtocolViolation));
                }
                validate_open_session(request, &self.limits, now_unix_seconds)?;
                if let Err(e) = self.flow.receive_open(request.session_id, request.initial_receive_window, now_ms) {
                    return Err(Error::from(e));
                }
            },
            Body::SessionOpened(opened) => {
                if self.local_role != GatewayRole::Entry {
                    return Err(Error::new(ErrorCode::ProtocolViolation));
                }
                if let Err(e) = self.flow.confirm_local_open(opened.session_id, opened.initial_receive_window, now_ms) {
                    return Err(Error::from(e));
                }
            },
            Body::SessionRejected(rejected) => {
                if self.local_role != GatewayRole::Entry || rejected.code < 1 || rejected.code > 5 {
                    return Err(Error::new(ErrorCode::ProtocolViolation));
                }
                if let Err(e) = self.flow.reject_or_close(rejected.session_id) {
                    return Err(Error::from(e));
                }
            },
            Body::Data(data) => {
                if data.payload.len() == 0 || data.payload.len() > MAX_DATA_PAYLOAD {
                    return Err(Error::new(ErrorCode::ProtocolViolation));
                }
                if let Err(e) = self.flow.debit_receive(data.session_id, data.payload.len(), now_ms) {
                    return Err(Error::from(e));
                }
            },
            Body::WindowUpdate(update) => {
                if let Err(e) = self.flow.receive_window_update(update.session_id, update.credit, now_ms) {
                    return Err(Error::from(e));
                }
            },
            Body::HalfClose(close) => {
                if let Err(e) = self.flow.receive_half_close(close.session_id, now_ms) {
                    return Err(Error::from(e));
                }
            },
            Body::CloseSession(close) => {
                if close.code < 1 || close.code > 5 {
                    return Err(Error::new(ErrorCode::ProtocolViolation));
                }
                if let Err(e) = self.flow.reject_or_close(close.session_id) {
                    return Err(Error::from(e));
                }
            },
            Body::Ping(ping) => validate_ping(ping.nonce.as_slice())?,
            Body::Pong(pong) => validate_ping(pong.nonce.as_slice())?,
            Body::GoAway(go_away) => {
                if go_away.drain_timeout_ms == 0 || go_away.drain_timeout_ms > 30000 {
                    return Err(Error::new(ErrorCode::ProtocolViolation));
                }
                self.peer_draining = true;
            },
            _ => {
                return Err(Error::new(ErrorCode::ProtocolViolation));
            },
        }
        Ok(body)
    }
}

} // verus!
