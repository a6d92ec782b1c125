//! The gateway session state machine over a reliable ordered byte stream.
//!
//! The session decides; the transport layer moves frames. Outbound, the caller
//! takes frames from `next_outbound_frame` and writes them; inbound, it hands
//! every decoded frame to `receive_frame`. A transport failure is reported
//! with `close`. Each queued body is charged an upper bound of its encoded
//! frame, computed from its fields and content (`body_charge`), plus a fixed
//! overhead. Times are milliseconds on the caller's monotonic clock.
use vstd::prelude::*;

use crate::fair_queue::{ring_after_cancel, ring_after_push};
use crate::gateway::error::ProtocolError;
use crate::gateway::flow::{FlowController, StreamPhase, StreamView, flow_limits_valid, fresh_stream, is_idle};
use crate::gateway::limits::{ProtocolLimits, MAX_DATA_PAYLOAD};
use crate::gateway::negotiation::{
    capabilities_result, flow_control_bytes, flow_control_name, resolve_domain_bytes,
    resolve_domain_name, session_rotation_bytes, session_rotation_name, tcp_connect_bytes,
    tcp_connect_name, validate_capabilities,
};
use crate::gateway::scheduler::{FairScheduler, OutboundItem};
use crate::gateway::validation::{body_result, frame_result, validate_body, validate_frame};
use crate::gateway::wire::{
    Body, CloseCode, CloseStream, Data, DestinationValue, ErrorCode, GatewayFrame, GoAway, HalfClose,
    OpenTcpStream, ProtocolVersion, ResolveDomain, ResolveResult, TcpStreamOpened,
    TcpStreamRejected, WindowUpdate,
};
use crate::text::{contains_text, text_bytes, texts};

verus! {

/// Bytes charged for every queued frame on top of its encoded length.
pub const FRAME_ACCOUNTING_OVERHEAD: usize = 128;

#[derive(Clone, Copy, Debug, PartialEq, Eq, Structural)]
pub enum PeerRole {
    Client,
    Server,
}

#[derive(Clone, Copy, Debug, PartialEq, Eq, Structural)]
pub enum SessionPhase {
    AwaitingServerHello,
    AwaitingClientHello,
    AwaitingAuthentication,
    AwaitingAuthenticationResult,
    Active,
    Draining,
    Closed,
}

/// What a completed hello exchange fixes for the rest of the session.
pub struct NegotiatedParameters {
    pub selected_version: ProtocolVersion,
    pub session_id: Vec<u8>,
    pub maximum_frame_size: usize,
    pub peer_connection_receive_window: u32,
    pub local_connection_receive_window: u32,
    pub maximum_concurrent_streams: usize,
    pub enabled_capabilities: Vec<String>,
    pub idle_stream_timeout_ms: u64,
    pub next_phase: SessionPhase,
}

/// The total length of a list of byte strings.
pub open spec fn total_length(s: Seq<Seq<u8>>) -> nat
    decreases s.len(),
{
    if s.len() == 0 {
        0
    } else {
        total_length(s.drop_last()) + s.last().len()
    }
}

/// The bytes of a destination's content.
pub open spec fn destination_length(m: OpenTcpStream) -> nat {
    match m.destination {
        Some(d) => match d.value {
            Some(DestinationValue::Hostname(h)) => text_bytes(h).len(),
            Some(DestinationValue::IpAddress(a)) => a@.len(),
            None => 0,
        },
        None => 0,
    }
}

/// The number of protobuf fields a body can encode (nested fields and each
/// repeated element counted) and the bytes of its variable-length content.
pub open spec fn body_shape(body: Body) -> (nat, nat) {
    match body {
        Body::ClientHello(m) => (
            13 + m.client_capabilities@.len(),
            total_length(texts(m.client_capabilities@)) + text_bytes(m.desired_country).len()
                + m.session_nonce@.len(),
        ),
        Body::ServerHello(m) => (
            19 + m.enabled_capabilities@.len(),
            total_length(texts(m.enabled_capabilities@)) + m.echoed_client_nonce@.len()
                + m.server_nonce@.len() + m.ephemeral_session_id@.len(),
        ),
        Body::Authenticate(m) => (
            3,
            m.anonymous_capability_token@.len() + m.proof_of_possession@.len()
                + m.session_nonce_binding@.len(),
        ),
        Body::AuthenticationResult(m) => (
            3 + m.granted_capabilities@.len(),
            total_length(texts(m.granted_capabilities@)),
        ),
        Body::OpenTcpStream(m) => (7, destination_length(m)),
        Body::TcpStreamOpened(_) => (2, 0),
        Body::TcpStreamRejected(_) => (3, 0),
        Body::Data(m) => (2, m.payload@.len()),
        Body::WindowUpdate(_) => (2, 0),
        Body::HalfClose(_) => (1, 0),
        Body::CloseStream(_) => (2, 0),
        Body::ResolveDomain(m) => (4, text_bytes(m.hostname).len()),
        Body::ResolveResult(m) => (
            3 + m.ip_addresses@.len(),
            total_length(m.ip_addresses@.map_values(|a: Vec<u8>| a@)),
        ),
        Body::RotateSession(m) => (3, m.rotation_nonce@.len()),
        Body::SessionRotated(m) => (4, m.rotation_nonce@.len()),
        Body::Ping(m) => (1, m.nonce@.len()),
        Body::Pong(m) => (1, m.nonce@.len()),
        Body::Error(m) => (6, m.correlation_id@.len()),
        Body::GoAway(_) => (3, 0),
    }
}

/// Bytes charged for the frame header and the body's key and length.
pub const FRAME_HEADER_CHARGE: usize = 64;

/// Bytes charged for each field on top of its content: a key and a length
/// or varint value.
pub const FIELD_CHARGE: usize = 11;

/// What a queued body is charged: the frame overhead, the header charge, a
/// field charge per field and the bytes of its content. This bounds the
/// body's encoded frame from above.
pub open spec fn body_charge(body: Body) -> nat {
    (FRAME_ACCOUNTING_OVERHEAD + FRAME_HEADER_CHARGE + FIELD_CHARGE * body_shape(body).0
        + body_shape(body).1) as nat
}

/// The charge of a body, which must be valid on its own.
pub open spec fn accounted_size(body: Body) -> Result<usize, ProtocolError> {
    match body_result(body) {
        Err(e) => Err(e),
        Ok(()) => if body_charge(body) > usize::MAX {
            Err(ProtocolError::IntegerOverflow)
        } else {
            Ok(body_charge(body) as usize)
        },
    }
}

fn strings_length(v: &Vec<String>) -> (length: Option<usize>)
    ensures
        match length {
            Some(n) => n == total_length(texts(v@)),
            None => total_length(texts(v@)) > usize::MAX,
        },
{
    let mut total: usize = 0;
    let mut i: usize = 0;
    while i < v.len()
        invariant
            i <= v@.len(),
            total == total_length(texts(v@).take(i as int)),
        decreases v@.len() - i,
    {
        proof {
            assert(texts(v@).take(i + 1).drop_last() =~= texts(v@).take(i as int));
            lemma_total_length_prefix(texts(v@), i + 1);
        }
        let n = crate::text::bytes_of_string(&v[i]).len();
        total = match total.checked_add(n) {
            Some(t) => t,
            None => return None,
        };
        i = i + 1;
    }
    proof {
        assert(texts(v@).take(v@.len() as int) =~= texts(v@));
    }
    Some(total)
}

fn byte_strings_length(v: &Vec<Vec<u8>>) -> (length: Option<usize>)
    ensures
        match length {
            Some(n) => n == total_length(v@.map_values(|a: Vec<u8>| a@)),
            None => total_length(v@.map_values(|a: Vec<u8>| a@)) > usize::MAX,
        },
{
    let ghost views = v@.map_values(|a: Vec<u8>| a@);
    let mut total: usize = 0;
    let mut i: usize = 0;
    while i < v.len()
        invariant
            i <= v@.len(),
            views == v@.map_values(|a: Vec<u8>| a@),
            total == total_length(views.take(i as int)),
        decreases v@.len() - i,
    {
        proof {
            assert(views.take(i + 1).drop_last() =~= views.take(i as int));
            lemma_total_length_prefix(views, i + 1);
        }
        total = match total.checked_add(v[i].len()) {
            Some(t) => t,
            None => return None,
        };
        i = i + 1;
    }
    proof {
        assert(views.take(v@.len() as int) =~= views);
    }
    Some(total)
}

/// A prefix is no longer than the whole.
proof fn lemma_total_length_prefix(s: Seq<Seq<u8>>, k: int)
    requires
        0 <= k <= s.len(),
    ensures
        total_length(s.take(k)) <= total_length(s),
    decreases s.len(),
{
    if k < s.len() {
        assert(s.drop_last().take(k) =~= s.take(k));
        lemma_total_length_prefix(s.drop_last(), k);
    } else {
        assert(s.take(k) =~= s);
    }
}

fn body_shape_of(body: &Body) -> (shape: Option<(usize, usize)>)
    ensures
        match shape {
            Some((f, c)) => f == body_shape(*body).0 && c == body_shape(*body).1,
            None => body_shape(*body).0 > usize::MAX || body_shape(*body).1 > usize::MAX,
        },
{
    match body {
        Body::ClientHello(m) => {
            let caps = strings_length(&m.client_capabilities)?;
            let country = crate::text::bytes_of_string(&m.desired_country).len();
            let fields = m.client_capabilities.len().checked_add(13)?;
            let content = caps.checked_add(country)?.checked_add(m.session_nonce.len())?;
            Some((fields, content))
        },
        Body::ServerHello(m) => {
            let caps = strings_length(&m.enabled_capabilities)?;
            let fields = m.enabled_capabilities.len().checked_add(19)?;
            let content = caps.checked_add(m.echoed_client_nonce.len())?.checked_add(
                m.server_nonce.len(),
            )?.checked_add(m.ephemeral_session_id.len())?;
            Some((fields, content))
        },
        Body::Authenticate(m) => {
            let content = m.anonymous_capability_token.len().checked_add(
                m.proof_of_possession.len(),
            )?.checked_add(m.session_nonce_binding.len())?;
            Some((3, content))
        },
        Body::AuthenticationResult(m) => {
            let caps = strings_length(&m.granted_capabilities)?;
            let fields = m.granted_capabilities.len().checked_add(3)?;
            Some((fields, caps))
        },
        Body::OpenTcpStream(m) => {
            let content = match &m.destination {
                Some(d) => match &d.value {
                    Some(DestinationValue::Hostname(h)) => crate::text::bytes_of_string(h).len(),
                    Some(DestinationValue::IpAddress(a)) => a.len(),
                    None => 0,
                },
                None => 0,
            };
            Some((7, content))
        },
        Body::TcpStreamOpened(_) => Some((2, 0)),
        Body::TcpStreamRejected(_) => Some((3, 0)),
        Body::Data(m) => Some((2, m.payload.len())),
        Body::WindowUpdate(_) => Some((2, 0)),
        Body::HalfClose(_) => Some((1, 0)),
        Body::CloseStream(_) => Some((2, 0)),
        Body::ResolveDomain(m) => Some((4, crate::text::bytes_of_string(&m.hostname).len())),
        Body::ResolveResult(m) => {
            let content = byte_strings_length(&m.ip_addresses)?;
            let fields = m.ip_addresses.len().checked_add(3)?;
            Some((fields, content))
        },
        Body::RotateSession(m) => Some((3, m.rotation_nonce.len())),
        Body::SessionRotated(m) => Some((4, m.rotation_nonce.len())),
        Body::Ping(m) => Some((1, m.nonce.len())),
        Body::Pong(m) => Some((1, m.nonce.len())),
        Body::Error(m) => Some((6, m.correlation_id.len())),
        Body::GoAway(_) => Some((3, 0)),
    }
}

/// Validates a body and computes its charge.
pub fn accounted_body_size(body: &Body) -> (result: Result<usize, ProtocolError>)
    ensures
        result == accounted_size(*body),
{
    validate_body(body)?;
    let (fields, content) = match body_shape_of(body) {
        Some(shape) => shape,
        None => return Err(ProtocolError::IntegerOverflow),
    };
    let charged = match fields.checked_mul(FIELD_CHARGE) {
        Some(c) => c,
        None => return Err(ProtocolError::IntegerOverflow),
    };
    let base = FRAME_ACCOUNTING_OVERHEAD + FRAME_HEADER_CHARGE;
    let total = match charged.checked_add(content) {
        Some(t) => match t.checked_add(base) {
            Some(total) => total,
            None => return Err(ProtocolError::IntegerOverflow),
        },
        None => return Err(ProtocolError::IntegerOverflow),
    };
    Ok(total)
}

/// Whether `v` lists no value twice.
pub open spec fn distinct(v: Seq<u64>) -> bool {
    forall|i: int, j: int| 0 <= i < j < v.len() ==> #[trigger] v[i] != #[trigger] v[j]
}

/// The error of a missing capability.
pub open spec fn capability_error() -> ProtocolError {
    ProtocolError::ProtocolViolation("capability was not negotiated and granted")
}

/// The session protocol state machine. The transport is only carried: the
/// caller moves frames through it.
pub struct Session<T> {
    transport: T,
    local_role: PeerRole,
    phase: SessionPhase,
    limits: ProtocolLimits,
    maximum_frame_size: usize,
    outbound_version: ProtocolVersion,
    selected_version: Option<ProtocolVersion>,
    session_id: Vec<u8>,
    next_send_sequence: u64,
    next_receive_sequence: u64,
    enabled_critical_extensions: Vec<u32>,
    enabled_capabilities: Vec<String>,
    scheduler: FairScheduler,
    flow: Option<FlowController>,
    local_resolves: Vec<u64>,
    remote_resolves: Vec<u64>,
    maximum_seen_local_query_id: u64,
    maximum_seen_remote_query_id: u64,
}

impl<T> Session<T> {
    pub closed spec fn transport_spec(&self) -> T {
        self.transport
    }

    pub closed spec fn role(&self) -> PeerRole {
        self.local_role
    }

    pub closed spec fn phase_spec(&self) -> SessionPhase {
        self.phase
    }

    pub closed spec fn limits(&self) -> ProtocolLimits {
        self.limits
    }

    /// The frame size in force: the local limit until negotiation lowers it.
    pub closed spec fn frame_limit(&self) -> usize {
        self.maximum_frame_size
    }

    /// The version stamped on outbound frames.
    pub closed spec fn outbound_version(&self) -> ProtocolVersion {
        self.outbound_version
    }

    pub closed spec fn negotiated_version(&self) -> Option<ProtocolVersion> {
        self.selected_version
    }

    pub closed spec fn session_id_spec(&self) -> Seq<u8> {
        self.session_id@
    }

    pub closed spec fn next_send(&self) -> u64 {
        self.next_send_sequence
    }

    pub closed spec fn next_receive(&self) -> u64 {
        self.next_receive_sequence
    }

    /// The enabled (and, once authenticated, granted) capabilities.
    pub closed spec fn capabilities(&self) -> Seq<Seq<u8>> {
        texts(self.enabled_capabilities@)
    }

    pub closed spec fn scheduler(&self) -> FairScheduler {
        self.scheduler
    }

    pub closed spec fn flow(&self) -> Option<FlowController> {
        self.flow
    }

    /// Resolve queries this side sent and awaits answers for.
    pub closed spec fn local_resolves(&self) -> Seq<u64> {
        self.local_resolves@
    }

    /// Resolve queries the peer sent and this side must answer.
    pub closed spec fn remote_resolves(&self) -> Seq<u64> {
        self.remote_resolves@
    }

    pub closed spec fn highest_local_query(&self) -> u64 {
        self.maximum_seen_local_query_id
    }

    pub closed spec fn highest_remote_query(&self) -> u64 {
        self.maximum_seen_remote_query_id
    }

    pub closed spec fn wf(&self) -> bool {
        &&& self.scheduler.wf()
        &&& (self.flow matches Some(f) ==> f.wf())
        &&& self.limits.validation_result() is Ok
        &&& self.enabled_critical_extensions@.len() == 0
        &&& self.outbound_version.major != 0
        &&& self.next_send_sequence >= 1
        &&& distinct(self.local_resolves@)
        &&& distinct(self.remote_resolves@)
        &&& forall|i: int| 0 <= i < self.local_resolves@.len() ==> #[trigger] self.local_resolves@[i]
            <= self.maximum_seen_local_query_id
        &&& forall|i: int| 0 <= i < self.remote_resolves@.len() ==> #[trigger] self.remote_resolves@[i]
            <= self.maximum_seen_remote_query_id
    }

    pub open spec fn has_capability(&self, name: Seq<u8>) -> bool {
        self.capabilities().contains(name)
    }

    /// Everything but the outbound queue and the flow ledger is as in `self`.
    pub open spec fn same_core(&self, after: Self) -> bool {
        &&& after.role() == self.role()
        &&& after.phase_spec() == self.phase_spec()
        &&& after.limits() == self.limits()
        &&& after.frame_limit() == self.frame_limit()
        &&& after.outbound_version() == self.outbound_version()
        &&& after.negotiated_version() == self.negotiated_version()
        &&& after.session_id_spec() == self.session_id_spec()
        &&& after.next_send() == self.next_send()
        &&& after.next_receive() == self.next_receive()
        &&& after.capabilities() == self.capabilities()
        &&& after.local_resolves() == self.local_resolves()
        &&& after.remote_resolves() == self.remote_resolves()
        &&& after.highest_local_query() == self.highest_local_query()
        &&& after.highest_remote_query() == self.highest_remote_query()
    }

    /// `after` is `self` with `entry` queued as a control frame.
    pub open spec fn queued_control(&self, after: Self, entry: (Body, usize)) -> bool {
        &&& after.scheduler().control() == self.scheduler().control().push(entry)
        &&& after.scheduler().streams() == self.scheduler().streams()
        &&& after.scheduler().burst() == self.scheduler().burst()
        &&& after.scheduler().byte_budget() == self.scheduler().byte_budget()
        &&& after.scheduler().stream_budget() == self.scheduler().stream_budget()
        &&& after.scheduler().control_budget() == self.scheduler().control_budget()
    }

    /// The outcome of queueing a control body: its charge, then room for it.
    pub open spec fn control_queue_result(&self, body: Body) -> Result<usize, ProtocolError> {
        match accounted_size(body) {
            Err(e) => Err(e),
            Ok(size) => match self.scheduler().control_check(size) {
                Err(e) => Err(e),
                Ok(()) => Ok(size),
            },
        }
    }

    fn new(
        transport: T,
        local_role: PeerRole,
        phase: SessionPhase,
        limits: ProtocolLimits,
        initial_version: ProtocolVersion,
    ) -> (result: Result<Self, ProtocolError>)
        ensures
            match result {
                Ok(session) => {
                    &&& limits.validation_result() is Ok
                    &&& initial_version.major != 0
                    &&& session.wf()
                    &&& session.role() == local_role
                    &&& session.phase_spec() == phase
                    &&& session.limits() == limits
                    &&& session.frame_limit() == limits.maximum_frame_size
                    &&& session.outbound_version() == initial_version
                    &&& session.negotiated_version() is None
                    &&& session.session_id_spec().len() == 0
                    &&& session.next_send() == 1
                    &&& session.next_receive() == 1
                    &&& session.capabilities().len() == 0
                    &&& session.flow() is None
                    &&& session.local_resolves().len() == 0
                    &&& session.remote_resolves().len() == 0
                    &&& session.highest_local_query() == 0
                    &&& session.highest_remote_query() == 0
                    &&& session.scheduler().control().len() == 0
                    &&& session.scheduler().streams().len() == 0
                    &&& session.scheduler().burst() == 0
                    &&& session.scheduler().byte_budget() == limits.maximum_queued_bytes
                    &&& session.scheduler().stream_budget() == limits.maximum_queued_bytes_per_stream
                    &&& session.scheduler().control_budget() == limits.maximum_control_frames
                },
                Err(e) => match limits.validation_result() {
                    Err(f) => e == f,
                    Ok(()) => initial_version.major == 0 && e == ProtocolError::InvalidField(
                        "initial_version",
                    ),
                },
            },
    {
        limits.validate()?;
        if initial_version.major == 0 {
            return Err(ProtocolError::InvalidField("initial_version"));
        }
        let scheduler = match FairScheduler::new(
            limits.maximum_queued_bytes,
            limits.maximum_queued_bytes_per_stream,
            limits.maximum_control_frames,
        ) {
            Ok(scheduler) => scheduler,
            Err(e) => return Err(e),
        };
        let session = Session {
            transport,
            local_role,
            phase,
            limits,
            maximum_frame_size: limits.maximum_frame_size,
            outbound_version: initial_version,
            selected_version: None,
            session_id: Vec::new(),
            next_send_sequence: 1,
            next_receive_sequence: 1,
            enabled_critical_extensions: Vec::new(),
            enabled_capabilities: Vec::new(),
            scheduler,
            flow: None,
            local_resolves: Vec::new(),
            remote_resolves: Vec::new(),
            maximum_seen_local_query_id: 0,
            maximum_seen_remote_query_id: 0,
        };
        proof {
            assert(session.capabilities() =~= Seq::<Seq<u8>>::empty());
        }
        Ok(session)
    }

    /// A client session awaiting the server's hello.
    pub fn new_client(transport: T, limits: ProtocolLimits, initial_version: ProtocolVersion) -> (result:
        Result<Self, ProtocolError>)
        ensures
            match result {
                Ok(session) => {
                    &&& limits.validation_result() is Ok
                    &&& initial_version.major != 0
                    &&& session.wf()
                    &&& session.role() == PeerRole::Client
                    &&& session.phase_spec() == SessionPhase::AwaitingServerHello
                    &&& session.limits() == limits
                    &&& session.frame_limit() == limits.maximum_frame_size
                    &&& session.outbound_version() == initial_version
                    &&& session.negotiated_version() is None
                    &&& session.next_send() == 1
                    &&& session.next_receive() == 1
                    &&& session.capabilities().len() == 0
                    &&& session.flow() is None
                    &&& session.scheduler().control().len() == 0
                    &&& session.scheduler().streams().len() == 0
                },
                Err(e) => match limits.validation_result() {
                    Err(f) => e == f,
                    Ok(()) => initial_version.major == 0 && e == ProtocolError::InvalidField(
                        "initial_version",
                    ),
                },
            },
    {
        Self::new(transport, PeerRole::Client, SessionPhase::AwaitingServerHello, limits, initial_version)
    }

    /// A server session awaiting the client's hello.
    pub fn new_server(transport: T, limits: ProtocolLimits, initial_version: ProtocolVersion) -> (result:
        Result<Self, ProtocolError>)
        ensures
            match result {
                Ok(session) => {
                    &&& limits.validation_result() is Ok
                    &&& initial_version.major != 0
                    &&& session.wf()
                    &&& session.role() == PeerRole::Server
                    &&& session.phase_spec() == SessionPhase::AwaitingClientHello
                    &&& session.limits() == limits
                    &&& session.frame_limit() == limits.maximum_frame_size
                    &&& session.outbound_version() == initial_version
                    &&& session.negotiated_version() is None
                    &&& session.next_send() == 1
                    &&& session.next_receive() == 1
                    &&& session.capabilities().len() == 0
                    &&& session.flow() is None
                    &&& session.scheduler().control().len() == 0
                    &&& session.scheduler().streams().len() == 0
                },
                Err(e) => match limits.validation_result() {
                    Err(f) => e == f,
                    Ok(()) => initial_version.major == 0 && e == ProtocolError::InvalidField(
                        "initial_version",
                    ),
                },
            },
    {
        Self::new(transport, PeerRole::Server, SessionPhase::AwaitingClientHello, limits, initial_version)
    }

    pub fn phase(&self) -> (phase: SessionPhase)
        ensures
            phase == self.phase_spec(),
    {
        self.phase
    }

    pub fn selected_version(&self) -> (version: Option<ProtocolVersion>)
        ensures
            version == self.negotiated_version(),
    {
        self.selected_version
    }

    pub fn queued_bytes(&self) -> (bytes: usize)
        requires
            self.wf(),
        ensures
            bytes == self.scheduler().total(),
    {
        self.scheduler.queued_bytes()
    }

    pub fn flow_controller(&self) -> (flow: Option<&FlowController>)
        ensures
            match (flow, self.flow()) {
                (Some(f), Some(g)) => *f == g,
                (None, None) => true,
                _ => false,
            },
    {
        self.flow.as_ref()
    }

    pub fn into_inner(self) -> (transport: T)
        ensures
            transport == self.transport_spec(),
    {
        self.transport
    }

    /// Records a transport failure: the session is closed for good.
    pub fn close(&mut self)
        ensures
            final(self).phase_spec() == SessionPhase::Closed,
            final(self).wf() == old(self).wf(),
    {
        self.phase = SessionPhase::Closed;
    }

    fn require_capability(&self, name: &[u8]) -> (result: Result<(), ProtocolError>)
        ensures
            result is Ok <==> self.has_capability(name@),
            result is Err ==> result == Err::<(), ProtocolError>(capability_error()),
    {
        if !contains_text(self.enabled_capabilities.as_slice(), name) {
            return Err(ProtocolError::ProtocolViolation("capability was not negotiated and granted"));
        }
        Ok(())
    }
}

impl<T> Session<T> {
    /// The outcome of `configure_negotiated`.
    pub open spec fn configure_result(&self, p: NegotiatedParameters) -> Result<(), ProtocolError> {
        let streams = if p.maximum_concurrent_streams <= self.limits().maximum_concurrent_streams {
            p.maximum_concurrent_streams
        } else {
            self.limits().maximum_concurrent_streams
        };
        if p.selected_version.major == 0 || p.session_id@.len() != 16 {
            Err(ProtocolError::InvalidSession)
        } else if p.maximum_frame_size == 0 || p.maximum_frame_size > self.limits().maximum_frame_size {
            Err(ProtocolError::InvalidField("negotiated_frame_size"))
        } else if !flow_limits_valid(
            p.peer_connection_receive_window,
            p.local_connection_receive_window,
            streams,
        ) {
            Err(ProtocolError::InvalidField("flow_controller_limits"))
        } else {
            match capabilities_result(texts(p.enabled_capabilities@)) {
                Err(e) => Err(e),
                Ok(()) => if p.idle_stream_timeout_ms == 0 {
                    Err(ProtocolError::InvalidField("idle_stream_timeout"))
                } else {
                    Ok(())
                },
            }
        }
    }

    /// Applies what the hello exchange fixed: version, session ID, frame size,
    /// capabilities, idle timeout and a fresh flow ledger, then moves to the
    /// given phase. Nothing changes on error.
    pub fn configure_negotiated(&mut self, parameters: NegotiatedParameters) -> (result: Result<
        (),
        ProtocolError,
    >)
        requires
            old(self).wf(),
        ensures
            final(self).wf(),
            result == old(self).configure_result(parameters),
            result is Err ==> *final(self) == *old(self),
            result is Ok ==> {
                &&& final(self).role() == old(self).role()
                &&& final(self).phase_spec() == parameters.next_phase
                &&& final(self).limits() == (ProtocolLimits {
                    idle_stream_timeout_ms: parameters.idle_stream_timeout_ms,
                    ..old(self).limits()
                })
                &&& final(self).frame_limit() == parameters.maximum_frame_size
                &&& final(self).outbound_version() == parameters.selected_version
                &&& final(self).negotiated_version() == Some(parameters.selected_version)
                &&& final(self).session_id_spec() == parameters.session_id@
                &&& final(self).capabilities() == texts(parameters.enabled_capabilities@)
                &&& final(self).next_send() == old(self).next_send()
                &&& final(self).next_receive() == old(self).next_receive()
                &&& final(self).scheduler() == old(self).scheduler()
                &&& final(self).local_resolves() == old(self).local_resolves()
                &&& final(self).remote_resolves() == old(self).remote_resolves()
                &&& final(self).highest_local_query() == old(self).highest_local_query()
                &&& final(self).highest_remote_query() == old(self).highest_remote_query()
                &&& match final(self).flow() {
                    Some(f) => f.connection_send() == parameters.peer_connection_receive_window
                        && f.connection_receive() == parameters.local_connection_receive_window
                        && f.stream_limit() == (if parameters.maximum_concurrent_streams
                        <= old(self).limits().maximum_concurrent_streams {
                        parameters.maximum_concurrent_streams
                    } else {
                        old(self).limits().maximum_concurrent_streams
                    }) && f.highest_stream_id() == 0 && f.streams() == Map::<
                        u64,
                        StreamView,
                    >::empty(),
                    None => false,
                }
            },
    {
        if parameters.selected_version.major == 0 || parameters.session_id.len() != 16 {
            return Err(ProtocolError::InvalidSession);
        }
        if parameters.maximum_frame_size == 0 || parameters.maximum_frame_size
            > self.limits.maximum_frame_size {
            return Err(ProtocolError::InvalidField("negotiated_frame_size"));
        }
        let streams = if parameters.maximum_concurrent_streams
            <= self.limits.maximum_concurrent_streams {
            parameters.maximum_concurrent_streams
        } else {
            self.limits.maximum_concurrent_streams
        };
        let flow = FlowController::new(
            parameters.peer_connection_receive_window,
            parameters.local_connection_receive_window,
            streams,
        )?;
        validate_capabilities(parameters.enabled_capabilities.as_slice())?;
        if parameters.idle_stream_timeout_ms == 0 {
            return Err(ProtocolError::InvalidField("idle_stream_timeout"));
        }
        self.outbound_version = parameters.selected_version;
        self.selected_version = Some(parameters.selected_version);
        self.session_id = parameters.session_id;
        self.maximum_frame_size = parameters.maximum_frame_size;
        self.enabled_capabilities = parameters.enabled_capabilities;
        self.limits.idle_stream_timeout_ms = parameters.idle_stream_timeout_ms;
        self.flow = Some(flow);
        self.phase = parameters.next_phase;
        Ok(())
    }

    /// Completes authentication: only from one of the two authentication phases.
    pub fn mark_active(&mut self) -> (result: Result<(), ProtocolError>)
        ensures
            final(self).wf() == old(self).wf(),
            old(self).same_core(*final(self)) || final(self).phase_spec() == SessionPhase::Active,
            (old(self).phase_spec() == SessionPhase::AwaitingAuthentication || old(self).phase_spec()
                == SessionPhase::AwaitingAuthenticationResult) ==> result is Ok
                && final(self).phase_spec() == SessionPhase::Active,
            !(old(self).phase_spec() == SessionPhase::AwaitingAuthentication || old(self).phase_spec()
                == SessionPhase::AwaitingAuthenticationResult) ==> result == Err::<(), ProtocolError>(
                ProtocolError::ProtocolViolation("invalid active transition"),
            ) && *final(self) == *old(self),
            final(self).role() == old(self).role(),
            final(self).capabilities() == old(self).capabilities(),
            final(self).scheduler() == old(self).scheduler(),
            final(self).flow() == old(self).flow(),
            final(self).session_id_spec() == old(self).session_id_spec(),
            final(self).negotiated_version() == old(self).negotiated_version(),
    {
        match self.phase {
            SessionPhase::AwaitingAuthentication | SessionPhase::AwaitingAuthenticationResult => {
                self.phase = SessionPhase::Active;
                Ok(())
            },
            _ => Err(ProtocolError::ProtocolViolation("invalid active transition")),
        }
    }

    /// The outcome of `set_granted_capabilities`: the grant must be valid,
    /// list each capability once and only enabled ones.
    pub open spec fn grant_result(&self, granted: Seq<Seq<u8>>) -> Result<(), ProtocolError> {
        match capabilities_result(granted) {
            Err(e) => Err(e),
            Ok(()) => if (exists|a: int, b: int|
                0 <= a < b < granted.len() && #[trigger] granted[a] == #[trigger] granted[b]) || (
            exists|k: int| 0 <= k < granted.len() && !self.has_capability(#[trigger] granted[k])) {
                Err(
                    ProtocolError::ProtocolViolation(
                        "authentication granted an unnegotiated capability",
                    ),
                )
            } else {
                Ok(())
            },
        }
    }

    /// Narrows the enabled capabilities to those authentication granted.
    pub fn set_granted_capabilities(&mut self, granted: &[String]) -> (result: Result<
        (),
        ProtocolError,
    >)
        requires
            old(self).wf(),
        ensures
            final(self).wf(),
            result == old(self).grant_result(texts(granted@)),
            result is Err ==> *final(self) == *old(self),
            result is Ok ==> final(self).capabilities() == texts(granted@),
            final(self).role() == old(self).role(),
            final(self).phase_spec() == old(self).phase_spec(),
            final(self).scheduler() == old(self).scheduler(),
            final(self).flow() == old(self).flow(),
            final(self).session_id_spec() == old(self).session_id_spec(),
            final(self).negotiated_version() == old(self).negotiated_version(),
            final(self).limits() == old(self).limits(),
    {
        validate_capabilities(granted)?;
        let ghost g = texts(granted@);
        let mut copy: Vec<String> = Vec::new();
        let mut k: usize = 0;
        while k < granted.len()
            invariant
                k <= granted@.len(),
                self.wf(),
                g == texts(granted@),
                capabilities_result(g) is Ok,
                texts(copy@) == g.take(k as int),
                forall|a: int, b: int| 0 <= a < b < k ==> #[trigger] g[a] != #[trigger] g[b],
                forall|j: int| 0 <= j < k ==> self.has_capability(#[trigger] g[j]),
            decreases granted@.len() - k,
        {
            let name = crate::text::bytes_of_string(&granted[k]);
            let mut j: usize = 0;
            while j < k
                invariant
                    j <= k < granted@.len(),
                    self.wf(),
                    g == texts(granted@),
                    capabilities_result(g) is Ok,
                    name@ == g[k as int],
                    forall|a: int| 0 <= a < j ==> #[trigger] g[a] != g[k as int],
                decreases k - j,
            {
                if crate::text::bytes_equal(crate::text::bytes_of_string(&granted[j]), name) {
                    proof {
                        assert(g[j as int] == g[k as int]);
                    }
                    return Err(
                        ProtocolError::ProtocolViolation(
                            "authentication granted an unnegotiated capability",
                        ),
                    );
                }
                j = j + 1;
            }
            if !contains_text(self.enabled_capabilities.as_slice(), name) {
                proof {
                    assert(!self.has_capability(g[k as int]));
                }
                return Err(
                    ProtocolError::ProtocolViolation(
                        "authentication granted an unnegotiated capability",
                    ),
                );
            }
            let ghost before = texts(copy@);
            copy.push(granted[k].clone());
            proof {
                assert(texts(copy@) =~= before.push(g[k as int]));
                assert(g.take(k + 1) =~= g.take(k as int).push(g[k as int]));
            }
            k = k + 1;
        }
        proof {
            assert(g.take(granted@.len() as int) =~= g);
        }
        self.enabled_capabilities = copy;
        Ok(())
    }

    /// Queues a control body once its charge and the queue allow it.
    fn queue_control_body(&mut self, body: Body) -> (result: Result<(), ProtocolError>)
        requires
            old(self).wf(),
        ensures
            final(self).wf(),
            match old(self).control_queue_result(body) {
                Err(e) => result == Err::<(), ProtocolError>(e) && *final(self) == *old(self),
                Ok(size) => result == Ok::<(), ProtocolError>(()) && old(self).queued_control(*final(self), (body, size))
                    && old(self).same_core(*final(self)) && final(self).flow() == old(self).flow(),
            },
    {
        let size = accounted_body_size(&body)?;
        self.scheduler.can_enqueue_control(size)?;
        let result = self.scheduler.enqueue_control(OutboundItem { body, accounted_bytes: size });
        result
    }

    /// Whether the session is still in a hello or authentication phase.
    pub open spec fn in_handshake(&self) -> bool {
        ||| self.phase_spec() == SessionPhase::AwaitingServerHello
        ||| self.phase_spec() == SessionPhase::AwaitingClientHello
        ||| self.phase_spec() == SessionPhase::AwaitingAuthentication
        ||| self.phase_spec() == SessionPhase::AwaitingAuthenticationResult
    }

    /// Queues a hello or authentication body; only during the handshake.
    pub fn queue_handshake(&mut self, body: Body) -> (result: Result<(), ProtocolError>)
        requires
            old(self).wf(),
        ensures
            final(self).wf(),
            !old(self).in_handshake() ==> result == Err::<(), ProtocolError>(
                ProtocolError::ProtocolViolation("handshake already complete"),
            ) && *final(self) == *old(self),
            old(self).in_handshake() ==> match old(self).control_queue_result(body) {
                Err(e) => result == Err::<(), ProtocolError>(e) && *final(self) == *old(self),
                Ok(size) => result == Ok::<(), ProtocolError>(()) && old(self).queued_control(*final(self), (body, size))
                    && old(self).same_core(*final(self)) && final(self).flow() == old(self).flow(),
            },
    {
        match self.phase {
            SessionPhase::AwaitingServerHello
            | SessionPhase::AwaitingClientHello
            | SessionPhase::AwaitingAuthentication
            | SessionPhase::AwaitingAuthenticationResult => self.queue_control_body(body),
            _ => Err(ProtocolError::ProtocolViolation("handshake already complete")),
        }
    }
}

impl<T> Session<T> {
    pub open spec fn active_client(&self) -> bool {
        self.phase_spec() == SessionPhase::Active && self.role() == PeerRole::Client
    }

    pub open spec fn active_server(&self) -> bool {
        self.phase_spec() == SessionPhase::Active && self.role() == PeerRole::Server
    }

    pub open spec fn active_or_draining(&self) -> bool {
        self.phase_spec() == SessionPhase::Active || self.phase_spec() == SessionPhase::Draining
    }

    /// The outcome shared by the stream operations: the phase gate, the
    /// capability, the body's charge and room for it, then the flow ledger.
    pub open spec fn stream_op_result(
        &self,
        gate: bool,
        capability: Seq<u8>,
        body: Body,
        flow_step: spec_fn(FlowController) -> Result<(), ProtocolError>,
    ) -> Result<(), ProtocolError> {
        if !gate {
            Err(ProtocolError::Closed)
        } else if !self.has_capability(capability) {
            Err(capability_error())
        } else {
            match self.control_queue_result(body) {
                Err(e) => Err(e),
                Ok(_) => match self.flow() {
                    None => Err(ProtocolError::InvalidSession),
                    Some(f) => flow_step(f),
                },
            }
        }
    }

    /// `after` is `self` with `body` queued as a control frame and the flow
    /// ledger moved as `step` relates them.
    pub open spec fn stream_op_done(
        &self,
        after: Self,
        body: Body,
        step: spec_fn(FlowController, FlowController) -> bool,
    ) -> bool {
        &&& self.control_queue_result(body) matches Ok(size) && self.queued_control(after, (body, size))
        &&& self.same_core(after)
        &&& match (self.flow(), after.flow()) {
            (Some(f), Some(g)) => step(f, g),
            _ => false,
        }
    }

    fn gate_and_charge(&self, gate: bool, capability: &[u8], body: &Body) -> (result: Result<
        usize,
        ProtocolError,
    >)
        requires
            self.wf(),
        ensures
            result == if !gate {
                Err(ProtocolError::Closed)
            } else if !self.has_capability(capability@) {
                Err(capability_error())
            } else {
                self.control_queue_result(*body)
            },
    {
        if !gate {
            return Err(ProtocolError::Closed);
        }
        self.require_capability(capability)?;
        let size = accounted_body_size(body)?;
        self.scheduler.can_enqueue_control(size)?;
        Ok(size)
    }

    /// Requests a new outbound TCP stream (client only).
    pub fn open_tcp(&mut self, message: OpenTcpStream, now_ms: u64) -> (result: Result<
        (),
        ProtocolError,
    >)
        requires
            old(self).wf(),
        ensures
            final(self).wf(),
            result == old(self).stream_op_result(
                old(self).active_client(),
                tcp_connect_name(),
                Body::OpenTcpStream(message),
                |f: FlowController| f.open_result(message.stream_id, 0, message.initial_receive_window),
            ),
            result is Err ==> *final(self) == *old(self),
            result is Ok ==> old(self).stream_op_done(
                *final(self),
                Body::OpenTcpStream(message),
                |f: FlowController, g: FlowController|
                    f.opened(
                        g,
                        message.stream_id,
                        fresh_stream(StreamPhase::OpeningLocal, 0, message.initial_receive_window, now_ms),
                    ),
            ),
    {
        let gate = self.phase == SessionPhase::Active && self.local_role == PeerRole::Client;
        let stream_id = message.stream_id;
        let window = message.initial_receive_window;
        let body = Body::OpenTcpStream(message);
        let size = self.gate_and_charge(gate, tcp_connect_bytes().as_slice(), &body)?;
        match self.flow.as_mut() {
            Some(flow) => flow.open_local(stream_id, window, now_ms)?,
            None => return Err(ProtocolError::InvalidSession),
        }
        self.scheduler.enqueue_control(OutboundItem { body, accounted_bytes: size })
    }

    /// Accepts a stream the peer opened (server only).
    pub fn accept_tcp(&mut self, stream_id: u64, initial_receive_window: u32, now_ms: u64) -> (result:
        Result<(), ProtocolError>)
        requires
            old(self).wf(),
        ensures
            final(self).wf(),
            result == old(self).stream_op_result(
                old(self).active_server(),
                tcp_connect_name(),
                Body::TcpStreamOpened(TcpStreamOpened { stream_id, initial_receive_window }),
                |f: FlowController| f.accept_remote_open_result(stream_id, initial_receive_window),
            ),
            result is Err ==> *final(self) == *old(self),
            result is Ok ==> old(self).stream_op_done(
                *final(self),
                Body::TcpStreamOpened(TcpStreamOpened { stream_id, initial_receive_window }),
                |f: FlowController, g: FlowController|
                    f.with_stream(
                        g,
                        stream_id,
                        StreamView {
                            phase: StreamPhase::Open,
                            receive_window: initial_receive_window as u64,
                            last_activity_ms: now_ms,
                            ..f.streams()[stream_id]
                        },
                    ) && g.connection_send() == f.connection_send() && g.connection_receive()
                        == f.connection_receive(),
            ),
    {
        let gate = self.phase == SessionPhase::Active && self.local_role == PeerRole::Server;
        let body = Body::TcpStreamOpened(TcpStreamOpened { stream_id, initial_receive_window });
        let size = self.gate_and_charge(gate, tcp_connect_bytes().as_slice(), &body)?;
        match self.flow.as_mut() {
            Some(flow) => flow.accept_remote_open(stream_id, initial_receive_window, now_ms)?,
            None => return Err(ProtocolError::InvalidSession),
        }
        self.scheduler.enqueue_control(OutboundItem { body, accounted_bytes: size })
    }

    /// Refuses a stream the peer opened (server only).
    pub fn reject_tcp(&mut self, message: TcpStreamRejected) -> (result: Result<(), ProtocolError>)
        requires
            old(self).wf(),
        ensures
            final(self).wf(),
            result == old(self).stream_op_result(
                old(self).active_server(),
                tcp_connect_name(),
                Body::TcpStreamRejected(message),
                |f: FlowController| if f.lookup_fails(message.stream_id) {
                    Err(ProtocolError::InvalidStreamId)
                } else {
                    Ok(())
                },
            ),
            result is Err ==> *final(self) == *old(self),
            result is Ok ==> old(self).stream_op_done(
                *final(self),
                Body::TcpStreamRejected(message),
                |f: FlowController, g: FlowController|
                    g.streams() == f.streams().remove(message.stream_id) && g.highest_stream_id()
                        == f.highest_stream_id(),
            ),
    {
        let gate = self.phase == SessionPhase::Active && self.local_role == PeerRole::Server;
        let stream_id = message.stream_id;
        let body = Body::TcpStreamRejected(message);
        let size = self.gate_and_charge(gate, tcp_connect_bytes().as_slice(), &body)?;
        match self.flow.as_mut() {
            Some(flow) => flow.reject_or_close(stream_id)?,
            None => return Err(ProtocolError::InvalidSession),
        }
        self.scheduler.enqueue_control(OutboundItem { body, accounted_bytes: size })
    }

    /// Grants the peer more receive credit on a stream, or on the connection
    /// for stream 0.
    pub fn grant_receive_credit(&mut self, stream_id: u64, credit: u32, now_ms: u64) -> (result:
        Result<(), ProtocolError>)
        requires
            old(self).wf(),
        ensures
            final(self).wf(),
            result == old(self).stream_op_result(
                old(self).active_or_draining(),
                flow_control_name(),
                Body::WindowUpdate(WindowUpdate { stream_id, credit }),
                |f: FlowController| f.credit_result(
                    stream_id,
                    credit,
                    false,
                    ProtocolError::InvalidField("window_credit"),
                ),
            ),
            result is Err ==> *final(self) == *old(self),
            result is Ok ==> old(self).stream_op_done(
                *final(self),
                Body::WindowUpdate(WindowUpdate { stream_id, credit }),
                |f: FlowController, g: FlowController| f.credited(g, stream_id, credit, false, now_ms),
            ),
    {
        let gate = self.phase == SessionPhase::Active || self.phase == SessionPhase::Draining;
        let body = Body::WindowUpdate(WindowUpdate { stream_id, credit });
        let size = self.gate_and_charge(gate, flow_control_bytes().as_slice(), &body)?;
        match self.flow.as_mut() {
            Some(flow) => flow.grant_receive_credit(stream_id, credit, now_ms)?,
            None => return Err(ProtocolError::InvalidSession),
        }
        self.scheduler.enqueue_control(OutboundItem { body, accounted_bytes: size })
    }

    /// Half-closes the local direction of a stream.
    pub fn half_close(&mut self, stream_id: u64, now_ms: u64) -> (result: Result<(), ProtocolError>)
        requires
            old(self).wf(),
        ensures
            final(self).wf(),
            result == old(self).stream_op_result(
                old(self).active_or_draining(),
                tcp_connect_name(),
                Body::HalfClose(HalfClose { stream_id }),
                |f: FlowController| f.half_close_result(stream_id, true),
            ),
            result is Err ==> *final(self) == *old(self),
            result is Ok ==> old(self).stream_op_done(
                *final(self),
                Body::HalfClose(HalfClose { stream_id }),
                |f: FlowController, g: FlowController|
                    f.with_stream(
                        g,
                        stream_id,
                        StreamView {
                            local_half_closed: true,
                            last_activity_ms: now_ms,
                            ..f.streams()[stream_id]
                        },
                    ),
            ),
    {
        let gate = self.phase == SessionPhase::Active || self.phase == SessionPhase::Draining;
        let body = Body::HalfClose(HalfClose { stream_id });
        let size = self.gate_and_charge(gate, tcp_connect_bytes().as_slice(), &body)?;
        match self.flow.as_mut() {
            Some(flow) => flow.local_half_close(stream_id, now_ms)?,
            None => return Err(ProtocolError::InvalidSession),
        }
        self.scheduler.enqueue_control(OutboundItem { body, accounted_bytes: size })
    }
}

/// The charge of a DATA body carrying `consumed` payload bytes.
pub open spec fn data_charge(consumed: nat) -> nat {
    (FRAME_ACCOUNTING_OVERHEAD + FRAME_HEADER_CHARGE + 2 * FIELD_CHARGE + consumed) as nat
}

/// How much of a payload one DATA frame carries.
pub open spec fn data_consumed(length: nat) -> nat {
    if length < MAX_DATA_PAYLOAD {
        length
    } else {
        MAX_DATA_PAYLOAD as nat
    }
}

impl<T> Session<T> {
    /// The outcome of `try_queue_data`: how many payload bytes one DATA frame
    /// takes, or why none can be queued.
    pub open spec fn data_result(&self, stream_id: u64, payload: Seq<u8>) -> Result<
        usize,
        ProtocolError,
    > {
        let consumed = data_consumed(payload.len());
        if !self.active_or_draining() {
            Err(ProtocolError::Closed)
        } else if !self.has_capability(tcp_connect_name()) {
            Err(capability_error())
        } else if !crate::gateway::validation::stream_id_is_valid(stream_id) {
            Err(ProtocolError::InvalidStreamId)
        } else if payload.len() == 0 {
            Err(ProtocolError::InvalidField("data_payload"))
        } else {
            match self.scheduler().stream_check(stream_id, data_charge(consumed) as usize) {
                Err(e) => Err(e),
                Ok(()) => match self.flow() {
                    None => Err(ProtocolError::InvalidSession),
                    Some(f) => match f.debit_send_result(stream_id, consumed as usize) {
                        Err(e) => Err(e),
                        Ok(()) => Ok(consumed as usize),
                    },
                },
            }
        }
    }

    /// Queues at most one DATA frame and returns the consumed prefix length.
    /// Callers retry the remainder after a window update or backpressure.
    pub fn try_queue_data(&mut self, stream_id: u64, payload: &[u8], now_ms: u64) -> (result: Result<
        usize,
        ProtocolError,
    >)
        requires
            old(self).wf(),
        ensures
            final(self).wf(),
            result == old(self).data_result(stream_id, payload@),
            result is Err ==> *final(self) == *old(self),
            result matches Ok(consumed) ==> {
                &&& old(self).same_core(*final(self))
                &&& final(self).scheduler().control() == old(self).scheduler().control()
                &&& exists|d: Data|
                    d.stream_id == stream_id && d.payload@ == payload@.take(consumed as int)
                        && final(self).scheduler().streams() == ring_after_push(
                        old(self).scheduler().streams(),
                        stream_id,
                        (Body::Data(d), data_charge(consumed as nat) as usize),
                    )
                &&& match (old(self).flow(), final(self).flow()) {
                    (Some(f), Some(g)) => f.with_stream(
                        g,
                        stream_id,
                        StreamView {
                            send_window: (f.streams()[stream_id].send_window - consumed) as u64,
                            last_activity_ms: now_ms,
                            ..f.streams()[stream_id]
                        },
                    ) && g.connection_send() == f.connection_send() - consumed
                        && g.connection_receive() == f.connection_receive(),
                    _ => false,
                }
            },
    {
        if !(self.phase == SessionPhase::Active || self.phase == SessionPhase::Draining) {
            return Err(ProtocolError::Closed);
        }
        self.require_capability(tcp_connect_bytes().as_slice())?;
        crate::gateway::validation::validate_stream_id(stream_id)?;
        if payload.len() == 0 {
            return Err(ProtocolError::InvalidField("data_payload"));
        }
        let consumed = if payload.len() < MAX_DATA_PAYLOAD {
            payload.len()
        } else {
            MAX_DATA_PAYLOAD
        };
        let (head, _) = payload.split_at(consumed);
        let data = Data { stream_id, payload: crate::gateway::framing::copy_bytes(head) };
        let ghost d = data;
        let body = Body::Data(data);
        let size = accounted_body_size(&body)?;
        proof {
            assert(size == data_charge(consumed as nat));
        }
        self.scheduler.can_enqueue_stream(stream_id, size)?;
        match self.flow.as_mut() {
            Some(flow) => flow.debit_send(stream_id, consumed, now_ms)?,
            None => return Err(ProtocolError::InvalidSession),
        }
        self.scheduler.enqueue_stream(stream_id, OutboundItem { body, accounted_bytes: size })?;
        proof {
            assert(d.payload@ == payload@.take(consumed as int));
        }
        Ok(consumed)
    }

    /// The outcome of `close_stream`.
    pub open spec fn close_result(&self, stream_id: u64, code: CloseCode) -> Result<(), ProtocolError> {
        if !self.active_or_draining() {
            Err(ProtocolError::Closed)
        } else if !self.has_capability(tcp_connect_name()) {
            Err(capability_error())
        } else if code == CloseCode::Unspecified {
            Err(ProtocolError::InvalidField("close_code"))
        } else {
            match self.control_queue_result(Body::CloseStream(CloseStream { stream_id, code })) {
                Err(e) => Err(e),
                Ok(_) => match self.flow() {
                    None => Err(ProtocolError::InvalidSession),
                    Some(f) => if f.lookup_fails(stream_id) {
                        Err(ProtocolError::InvalidStreamId)
                    } else {
                        Ok(())
                    },
                },
            }
        }
    }

    /// Closes a stream: forgets it, drops its queued data and queues the
    /// close.
    pub fn close_stream(&mut self, stream_id: u64, code: CloseCode) -> (result: Result<
        (),
        ProtocolError,
    >)
        requires
            old(self).wf(),
        ensures
            final(self).wf(),
            result == old(self).close_result(stream_id, code),
            result is Err ==> *final(self) == *old(self),
            result is Ok ==> {
                let body = Body::CloseStream(CloseStream { stream_id, code });
                &&& old(self).same_core(*final(self))
                &&& old(self).control_queue_result(body) matches Ok(size)
                    && final(self).scheduler().control() == old(self).scheduler().control().push(
                    (body, size),
                )
                &&& final(self).scheduler().streams() == ring_after_cancel(
                    old(self).scheduler().streams(),
                    stream_id,
                )
                &&& match (old(self).flow(), final(self).flow()) {
                    (Some(f), Some(g)) => g.streams() == f.streams().remove(stream_id)
                        && g.highest_stream_id() == f.highest_stream_id(),
                    _ => false,
                }
            },
    {
        if !(self.phase == SessionPhase::Active || self.phase == SessionPhase::Draining) {
            return Err(ProtocolError::Closed);
        }
        self.require_capability(tcp_connect_bytes().as_slice())?;
        if code == CloseCode::Unspecified {
            return Err(ProtocolError::InvalidField("close_code"));
        }
        let body = Body::CloseStream(CloseStream { stream_id, code });
        let size = accounted_body_size(&body)?;
        self.scheduler.can_enqueue_control(size)?;
        match self.flow.as_mut() {
            Some(flow) => flow.reject_or_close(stream_id)?,
            None => return Err(ProtocolError::InvalidSession),
        }
        self.scheduler.cancel_stream(stream_id);
        self.scheduler.enqueue_control(OutboundItem { body, accounted_bytes: size })
    }

    /// The outcome of `resolve`.
    pub open spec fn resolve_result_spec(&self, m: ResolveDomain) -> Result<(), ProtocolError> {
        if !self.active_client() {
            Err(ProtocolError::Closed)
        } else if !self.has_capability(resolve_domain_name()) {
            Err(capability_error())
        } else if m.query_id <= self.highest_local_query() || self.local_resolves().len()
            >= self.limits().maximum_outstanding_resolves {
            Err(ProtocolError::InvalidStreamId)
        } else {
            match self.control_queue_result(Body::ResolveDomain(m)) {
                Err(e) => Err(e),
                Ok(_) => Ok(()),
            }
        }
    }

    /// Sends a resolve query (client only); query IDs only grow.
    pub fn resolve(&mut self, message: ResolveDomain) -> (result: Result<(), ProtocolError>)
        requires
            old(self).wf(),
        ensures
            final(self).wf(),
            result == old(self).resolve_result_spec(message),
            result is Err ==> *final(self) == *old(self),
            result is Ok ==> {
                &&& old(self).control_queue_result(Body::ResolveDomain(message)) matches Ok(size)
                    && old(self).queued_control(*final(self), (Body::ResolveDomain(message), size))
                &&& final(self).local_resolves() == old(self).local_resolves().push(message.query_id)
                &&& final(self).highest_local_query() == message.query_id
                &&& final(self).flow() == old(self).flow()
                &&& final(self).phase_spec() == old(self).phase_spec()
                &&& final(self).capabilities() == old(self).capabilities()
                &&& final(self).remote_resolves() == old(self).remote_resolves()
            },
    {
        let gate = self.phase == SessionPhase::Active && self.local_role == PeerRole::Client;
        if !gate {
            return Err(ProtocolError::Closed);
        }
        self.require_capability(resolve_domain_bytes().as_slice())?;
        let query_id = message.query_id;
        if query_id <= self.maximum_seen_local_query_id || self.local_resolves.len()
            >= self.limits.maximum_outstanding_resolves {
            return Err(ProtocolError::InvalidStreamId);
        }
        let body = Body::ResolveDomain(message);
        let size = accounted_body_size(&body)?;
        self.scheduler.can_enqueue_control(size)?;
        let ghost before = self.local_resolves@;
        self.maximum_seen_local_query_id = query_id;
        self.local_resolves.push(query_id);
        proof {
            assert forall|i: int, j: int| 0 <= i < j < self.local_resolves@.len() implies
                #[trigger] self.local_resolves@[i] != #[trigger] self.local_resolves@[j] by {
                if j == before.len() {
                    assert(before[i] <= old(self).maximum_seen_local_query_id);
                } else {
                    assert(before[i] != before[j]);
                }
            }
            assert forall|i: int| 0 <= i < self.local_resolves@.len() implies #[trigger] self.local_resolves@[i]
                <= self.maximum_seen_local_query_id by {
                if i < before.len() {
                    assert(before[i] <= old(self).maximum_seen_local_query_id);
                }
            }
        }
        self.scheduler.enqueue_control(OutboundItem { body, accounted_bytes: size })
    }

    fn remote_index(&self, query_id: u64) -> (found: Option<usize>)
        ensures
            match found {
                Some(i) => i < self.remote_resolves@.len() && self.remote_resolves@[i as int] == query_id,
                None => !self.remote_resolves@.contains(query_id),
            },
    {
        let mut i: usize = 0;
        while i < self.remote_resolves.len()
            invariant
                i <= self.remote_resolves@.len(),
                forall|k: int| 0 <= k < i ==> self.remote_resolves@[k] != query_id,
            decreases self.remote_resolves@.len() - i,
        {
            if self.remote_resolves[i] == query_id {
                return Some(i);
            }
            i = i + 1;
        }
        None
    }

    /// The outcome of `resolve_result`.
    pub open spec fn answer_result(&self, m: ResolveResult) -> Result<(), ProtocolError> {
        if !self.active_server() {
            Err(ProtocolError::Closed)
        } else if !self.has_capability(resolve_domain_name()) {
            Err(capability_error())
        } else if !self.remote_resolves().contains(m.query_id) {
            Err(ProtocolError::InvalidStreamId)
        } else {
            match self.control_queue_result(Body::ResolveResult(m)) {
                Err(e) => Err(e),
                Ok(_) => Ok(()),
            }
        }
    }

    /// Answers an outstanding resolve query of the peer (server only).
    pub fn resolve_result(&mut self, message: ResolveResult) -> (result: Result<(), ProtocolError>)
        requires
            old(self).wf(),
        ensures
            final(self).wf(),
            result == old(self).answer_result(message),
            result is Err ==> *final(self) == *old(self),
            result is Ok ==> {
                &&& old(self).control_queue_result(Body::ResolveResult(message)) matches Ok(size)
                    && old(self).queued_control(*final(self), (Body::ResolveResult(message), size))
                &&& exists|i: int|
                    0 <= i < old(self).remote_resolves().len() && old(self).remote_resolves()[i]
                        == message.query_id && final(self).remote_resolves()
                        == old(self).remote_resolves().remove(i)
                &&& final(self).flow() == old(self).flow()
                &&& final(self).phase_spec() == old(self).phase_spec()
                &&& final(self).capabilities() == old(self).capabilities()
                &&& final(self).local_resolves() == old(self).local_resolves()
            },
    {
        let gate = self.phase == SessionPhase::Active && self.local_role == PeerRole::Server;
        if !gate {
            return Err(ProtocolError::Closed);
        }
        self.require_capability(resolve_domain_bytes().as_slice())?;
        let index = match self.remote_index(message.query_id) {
            Some(i) => i,
            None => return Err(ProtocolError::InvalidStreamId),
        };
        let body = Body::ResolveResult(message);
        let size = accounted_body_size(&body)?;
        self.scheduler.can_enqueue_control(size)?;
        let ghost before = self.remote_resolves@;
        self.remote_resolves.remove(index);
        proof {
            assert(self.remote_resolves@ == before.remove(index as int));
            assert forall|i: int, j: int| 0 <= i < j < self.remote_resolves@.len() implies
                #[trigger] self.remote_resolves@[i] != #[trigger] self.remote_resolves@[j] by {
                let a = if i < index { i } else { i + 1 };
                let b = if j < index { j } else { j + 1 };
                assert(before[a] != before[b]);
            }
            assert forall|i: int| 0 <= i < self.remote_resolves@.len() implies #[trigger] self.remote_resolves@[i]
                <= self.maximum_seen_remote_query_id by {
                let a = if i < index { i } else { i + 1 };
                assert(before[a] <= self.maximum_seen_remote_query_id);
            }
        }
        self.scheduler.enqueue_control(OutboundItem { body, accounted_bytes: size })
    }

    /// The outcome of `queue_control`.
    pub open spec fn control_result(&self, body: Body) -> Result<(), ProtocolError> {
        if !self.active_or_draining() {
            Err(ProtocolError::Closed)
        } else {
            match body {
                Body::RotateSession(_) | Body::SessionRotated(_) => if !self.has_capability(
                    session_rotation_name(),
                ) {
                    Err(capability_error())
                } else {
                    match self.control_queue_result(body) {
                        Err(e) => Err(e),
                        Ok(_) => Ok(()),
                    }
                },
                Body::Ping(_) | Body::Pong(_) | Body::Error(_) => match self.control_queue_result(
                    body,
                ) {
                    Err(e) => Err(e),
                    Ok(_) => Ok(()),
                },
                _ => Err(ProtocolError::ProtocolViolation("message requires a typed session method")),
            }
        }
    }

    /// Queues a rotation, ping, pong or error body.
    pub fn queue_control(&mut self, body: Body) -> (result: Result<(), ProtocolError>)
        requires
            old(self).wf(),
        ensures
            final(self).wf(),
            result == old(self).control_result(body),
            result is Err ==> *final(self) == *old(self),
            result is Ok ==> (old(self).control_queue_result(body) matches Ok(size)
                && old(self).queued_control(*final(self), (body, size)) && old(self).same_core(
                *final(self),
            ) && final(self).flow() == old(self).flow()),
    {
        if !(self.phase == SessionPhase::Active || self.phase == SessionPhase::Draining) {
            return Err(ProtocolError::Closed);
        }
        match body {
            Body::RotateSession(_) | Body::SessionRotated(_) => {
                self.require_capability(session_rotation_bytes().as_slice())?;
                self.queue_control_body(body)
            },
            Body::Ping(_) | Body::Pong(_) | Body::Error(_) => self.queue_control_body(body),
            _ => Err(ProtocolError::ProtocolViolation("message requires a typed session method")),
        }
    }

    /// After `begin_go_away` succeeds, no new work is taken: with `after` the
    /// session as `begin_go_away` leaves it (the GoAway queued, the phase
    /// `Draining`), `open_tcp`, `accept_tcp`, `reject_tcp`, `resolve` and
    /// `resolve_result` each fail with `Closed`, whatever their arguments.
    pub proof fn lemma_go_away_refuses_new_work(
        &self,
        after: Self,
        message: GoAway,
        open: OpenTcpStream,
        stream_id: u64,
        initial_receive_window: u32,
        reject: TcpStreamRejected,
        query: ResolveDomain,
        answer: ResolveResult,
    )
        requires
            self.wf(),
            self.active_or_draining(),
            self.control_queue_result(Body::GoAway(message)) matches Ok(size) && self.queued_control(
                after,
                (Body::GoAway(message), size),
            ),
            after.phase_spec() == SessionPhase::Draining,
        ensures
            after.stream_op_result(
                after.active_client(),
                tcp_connect_name(),
                Body::OpenTcpStream(open),
                |f: FlowController| f.open_result(open.stream_id, 0, open.initial_receive_window),
            ) == Err::<(), ProtocolError>(ProtocolError::Closed),
            after.stream_op_result(
                after.active_server(),
                tcp_connect_name(),
                Body::TcpStreamOpened(TcpStreamOpened { stream_id, initial_receive_window }),
                |f: FlowController| f.accept_remote_open_result(stream_id, initial_receive_window),
            ) == Err::<(), ProtocolError>(ProtocolError::Closed),
            after.stream_op_result(
                after.active_server(),
                tcp_connect_name(),
                Body::TcpStreamRejected(reject),
                |f: FlowController| if f.lookup_fails(reject.stream_id) {
                    Err(ProtocolError::InvalidStreamId)
                } else {
                    Ok(())
                },
            ) == Err::<(), ProtocolError>(ProtocolError::Closed),
            after.resolve_result_spec(query) == Err::<(), ProtocolError>(ProtocolError::Closed),
            after.answer_result(answer) == Err::<(), ProtocolError>(ProtocolError::Closed),
    {
    }

    /// Queues a GoAway and starts draining.
    pub fn begin_go_away(&mut self, message: GoAway) -> (result: Result<(), ProtocolError>)
        requires
            old(self).wf(),
        ensures
            final(self).wf(),
            !old(self).active_or_draining() ==> result == Err::<(), ProtocolError>(
                ProtocolError::Closed,
            ) && *final(self) == *old(self),
            old(self).active_or_draining() ==> match old(self).control_queue_result(
                Body::GoAway(message),
            ) {
                Err(e) => result == Err::<(), ProtocolError>(e) && *final(self) == *old(self),
                Ok(size) => result is Ok && old(self).queued_control(
                    *final(self),
                    (Body::GoAway(message), size),
                ) && final(self).phase_spec() == SessionPhase::Draining && final(self).flow()
                    == old(self).flow() && final(self).capabilities() == old(self).capabilities()
                    && final(self).role() == old(self).role(),
            },
    {
        if !(self.phase == SessionPhase::Active || self.phase == SessionPhase::Draining) {
            return Err(ProtocolError::Closed);
        }
        self.queue_control_body(Body::GoAway(message))?;
        self.phase = SessionPhase::Draining;
        Ok(())
    }

    /// Closes every stream idle for the negotiated idle timeout and returns
    /// their IDs in ascending order. The streams are closed one by one in
    /// that order; the first close that fails stops the sweep with its error,
    /// leaving the streams before it closed.
    pub fn expire_idle_streams(&mut self, now_ms: u64) -> (result: Result<Vec<u64>, ProtocolError>)
        requires
            old(self).wf(),
        ensures
            final(self).wf(),
            final(self).role() == old(self).role(),
            old(self).same_core(*final(self)),
            old(self).flow() is None ==> (result matches Ok(expired) && expired@.len() == 0
                && *final(self) == *old(self)),
            old(self).flow() matches Some(f) ==> exists|ids: Seq<u64>|
                #![trigger idle_sweep(f, ids, now_ms, old(self).limits().idle_stream_timeout_ms)]
                idle_sweep(f, ids, now_ms, old(self).limits().idle_stream_timeout_ms) && match result {
                    Ok(expired) => {
                        &&& expired@ == ids
                        &&& final(self).flow() matches Some(g) && g.streams() == f.streams().remove_keys(
                            ids.to_set(),
                        )
                    },
                    Err(e) => exists|k: int|
                        0 <= k < ids.len() && (final(self).flow() matches Some(g) && g.streams()
                            == f.streams().remove_keys(ids.take(k).to_set())) && final(self).close_result(
                            #[trigger] ids[k],
                            CloseCode::Timeout,
                        ) == Err::<(), ProtocolError>(e),
                },
    {
        let ghost before = *self;
        let expired = match &self.flow {
            Some(flow) => flow.expire_idle(now_ms, self.limits.idle_stream_timeout_ms),
            None => Vec::new(),
        };
        let ghost ids = expired@;
        proof {
            if let Some(f) = before.flow() {
                assert(idle_sweep(f, ids, now_ms, before.limits().idle_stream_timeout_ms));
            }
        }
        let mut i: usize = 0;
        while i < expired.len()
            invariant
                self.wf(),
                before.flow() matches Some(f) ==> idle_sweep(f, ids, now_ms, before.limits().idle_stream_timeout_ms),
                self.role() == old(self).role(),
                before == *old(self),
                before.same_core(*self),
                ids == expired@,
                i <= expired@.len(),
                before.flow() is None ==> expired@.len() == 0,
                before.flow() is None ==> *self == before,
                before.flow() matches Some(f) ==> (self.flow() matches Some(g) && g.streams()
                    == f.streams().remove_keys(ids.take(i as int).to_set())),
            decreases expired@.len() - i,
        {
            let ghost mid = *self;
            match self.close_stream(expired[i], CloseCode::Timeout) {
                Ok(()) => {},
                Err(e) => {
                    proof {
                        assert(mid == *self);
                        assert(self.close_result(ids[i as int], CloseCode::Timeout) == Err::<(), ProtocolError>(e));
                        if let Some(f) = before.flow() {
                            assert(idle_sweep(f, ids, now_ms, old(self).limits().idle_stream_timeout_ms));
                        }
                    }
                    return Err(e);
                },
            }
            proof {
                match before.flow() {
                    Some(f) => {
                        ids.take(i as int).lemma_push_to_set_commute(ids[i as int]);
                        assert(ids.take(i + 1) =~= ids.take(i as int).push(ids[i as int]));
                        assert(f.streams().remove_keys(ids.take(i as int).to_set()).remove(ids[i as int])
                            =~= f.streams().remove_keys(ids.take(i + 1).to_set()));
                    },
                    None => {},
                }
            }
            i = i + 1;
        }
        proof {
            assert(ids.take(ids.len() as int) =~= ids);
            if let Some(f) = before.flow() {
                assert(idle_sweep(f, ids, now_ms, old(self).limits().idle_stream_timeout_ms));
            }
        }
        Ok(expired)
    }
}

/// `ids` lists, in ascending order, exactly the streams of `f` idle at
/// `now_ms` for `timeout_ms`.
pub open spec fn idle_sweep(f: FlowController, ids: Seq<u64>, now_ms: u64, timeout_ms: u64) -> bool {
    &&& forall|a: int, b: int| 0 <= a < b < ids.len() ==> ids[a] < ids[b]
    &&& forall|id: u64|
        ids.contains(id) <==> f.streams().contains_key(id) && is_idle(f.streams()[id].last_activity_ms, now_ms, timeout_ms)
}

/// How the flow ledger moves when an active session accepts `body`.
pub open spec fn inbound_flow_step(f: FlowController, g: FlowController, body: Body, now_ms: u64) -> bool {
    match body {
        Body::OpenTcpStream(m) => f.opened(
            g,
            m.stream_id,
            fresh_stream(StreamPhase::OpeningRemote, m.initial_receive_window, 0, now_ms),
        ),
        Body::TcpStreamOpened(m) => f.with_stream(
            g,
            m.stream_id,
            StreamView {
                phase: StreamPhase::Open,
                send_window: m.initial_receive_window as u64,
                last_activity_ms: now_ms,
                ..f.streams()[m.stream_id]
            },
        ) && g.connection_send() == f.connection_send() && g.connection_receive()
            == f.connection_receive(),
        Body::TcpStreamRejected(m) => g.streams() == f.streams().remove(m.stream_id)
            && g.highest_stream_id() == f.highest_stream_id(),
        Body::CloseStream(m) => g.streams() == f.streams().remove(m.stream_id) && g.highest_stream_id()
            == f.highest_stream_id(),
        Body::Data(m) => f.with_stream(
            g,
            m.stream_id,
            StreamView {
                receive_window: (f.streams()[m.stream_id].receive_window - m.payload@.len()) as u64,
                last_activity_ms: now_ms,
                ..f.streams()[m.stream_id]
            },
        ) && g.connection_receive() == f.connection_receive() - m.payload@.len()
            && g.connection_send() == f.connection_send(),
        Body::WindowUpdate(m) => f.credited(g, m.stream_id, m.credit, true, now_ms),
        Body::HalfClose(m) => f.with_stream(
            g,
            m.stream_id,
            StreamView {
                remote_half_closed: true,
                last_activity_ms: now_ms,
                ..f.streams()[m.stream_id]
            },
        ) && g.connection_send() == f.connection_send() && g.connection_receive()
            == f.connection_receive(),
        _ => g == f,
    }
}

impl<T> Session<T> {
    /// Whether `frame` belongs to this session in its current phase.
    pub open spec fn context_result(&self, frame: GatewayFrame) -> Result<(), ProtocolError> {
        match self.phase_spec() {
            SessionPhase::AwaitingClientHello => match frame.body {
                Some(Body::ClientHello(hello)) => if frame.session_id@.len() == 0 && (match hello.supported_versions {
                    Some(range) => range.maximum,
                    None => None,
                }) == frame.version {
                    Ok(())
                } else {
                    Err(ProtocolError::InvalidSession)
                },
                _ => Err(ProtocolError::InvalidSession),
            },
            SessionPhase::AwaitingServerHello => match frame.body {
                Some(Body::ServerHello(hello)) => if frame.session_id@ == hello.ephemeral_session_id@
                    && hello.selected_version == frame.version {
                    Ok(())
                } else {
                    Err(ProtocolError::InvalidSession)
                },
                Some(Body::Error(_)) | Some(Body::GoAway(_)) => if frame.session_id@.len() == 0 {
                    Ok(())
                } else {
                    Err(ProtocolError::InvalidSession)
                },
                _ => Err(ProtocolError::InvalidSession),
            },
            SessionPhase::Closed => Err(ProtocolError::Closed),
            _ => if frame.session_id@ != self.session_id_spec() {
                Err(ProtocolError::InvalidSession)
            } else {
                match self.negotiated_version() {
                    None => Err(ProtocolError::InvalidSession),
                    Some(v) => if frame.version != Some(v) {
                        Err(ProtocolError::ProtocolViolation("version changed after negotiation"))
                    } else {
                        Ok(())
                    },
                }
            },
        }
    }

    /// Whether an active or draining session accepts `body`.
    pub open spec fn active_result(&self, body: Body) -> Result<(), ProtocolError> {
        let flow_step = |step: spec_fn(FlowController) -> Result<(), ProtocolError>|
            match self.flow() {
                None => Err(ProtocolError::InvalidSession),
                Some(f) => step(f),
            };
        let needs = |name: Seq<u8>, then: Result<(), ProtocolError>|
            if !self.has_capability(name) {
                Err(capability_error())
            } else {
                then
            };
        match body {
            Body::OpenTcpStream(m) => needs(
                tcp_connect_name(),
                if self.role() != PeerRole::Server || self.phase_spec() == SessionPhase::Draining {
                    Err(ProtocolError::ProtocolViolation("new stream not permitted"))
                } else {
                    flow_step(|f: FlowController| f.open_result(m.stream_id, m.initial_receive_window, 0))
                },
            ),
            Body::TcpStreamOpened(m) => needs(
                tcp_connect_name(),
                if self.role() != PeerRole::Client {
                    Err(ProtocolError::ProtocolViolation("unexpected stream opened"))
                } else {
                    flow_step(
                        |f: FlowController| f.confirm_local_open_result(m.stream_id, m.initial_receive_window),
                    )
                },
            ),
            Body::TcpStreamRejected(m) => needs(
                tcp_connect_name(),
                if self.role() != PeerRole::Client {
                    Err(ProtocolError::ProtocolViolation("unexpected stream rejected"))
                } else {
                    flow_step(
                        |f: FlowController| if f.lookup_fails(m.stream_id) {
                            Err(ProtocolError::InvalidStreamId)
                        } else {
                            Ok(())
                        },
                    )
                },
            ),
            Body::Data(m) => needs(
                tcp_connect_name(),
                flow_step(
                    |f: FlowController| if f.debit_receive_allowed(m.stream_id, m.payload@.len() as usize) {
                        Ok(())
                    } else {
                        Err(ProtocolError::FlowControlViolation)
                    },
                ),
            ),
            Body::WindowUpdate(m) => needs(
                flow_control_name(),
                flow_step(
                    |f: FlowController| f.credit_result(
                        m.stream_id,
                        m.credit,
                        true,
                        ProtocolError::FlowControlViolation,
                    ),
                ),
            ),
            Body::HalfClose(m) => needs(
                tcp_connect_name(),
                flow_step(|f: FlowController| f.half_close_result(m.stream_id, false)),
            ),
            Body::CloseStream(m) => needs(
                tcp_connect_name(),
                flow_step(
                    |f: FlowController| if f.lookup_fails(m.stream_id) {
                        Err(ProtocolError::InvalidStreamId)
                    } else {
                        Ok(())
                    },
                ),
            ),
            Body::ResolveDomain(m) => needs(
                resolve_domain_name(),
                if self.role() != PeerRole::Server || self.phase_spec() == SessionPhase::Draining {
                    Err(ProtocolError::ProtocolViolation("resolve not permitted"))
                } else if m.query_id <= self.highest_remote_query() || self.remote_resolves().len()
                    >= self.limits().maximum_outstanding_resolves {
                    Err(ProtocolError::InvalidStreamId)
                } else {
                    Ok(())
                },
            ),
            Body::ResolveResult(m) => needs(
                resolve_domain_name(),
                if self.role() != PeerRole::Client || !self.local_resolves().contains(m.query_id) {
                    Err(ProtocolError::InvalidStreamId)
                } else {
                    Ok(())
                },
            ),
            Body::ClientHello(_) | Body::ServerHello(_) | Body::Authenticate(_)
            | Body::AuthenticationResult(_) => Err(
                ProtocolError::ProtocolViolation("handshake message after authentication"),
            ),
            Body::RotateSession(_) | Body::SessionRotated(_) => needs(session_rotation_name(), Ok(())),
            Body::GoAway(_) | Body::Error(_) | Body::Ping(_) | Body::Pong(_) => Ok(()),
        }
    }

    /// Whether the session accepts `body` in its current phase.
    pub open spec fn phase_accepts(&self, body: Body) -> Result<(), ProtocolError> {
        match self.phase_spec() {
            SessionPhase::AwaitingClientHello => if body is ClientHello {
                Ok(())
            } else {
                Err(ProtocolError::ProtocolViolation("expected ClientHello"))
            },
            SessionPhase::AwaitingServerHello => if body is ServerHello || body is Error || body is GoAway {
                Ok(())
            } else {
                Err(ProtocolError::ProtocolViolation("expected ServerHello"))
            },
            SessionPhase::AwaitingAuthentication => if body is Authenticate || body is Error
                || body is GoAway {
                Ok(())
            } else {
                Err(ProtocolError::ProtocolViolation("expected Authenticate"))
            },
            SessionPhase::AwaitingAuthenticationResult => if body is AuthenticationResult || body is Error
                || body is GoAway {
                Ok(())
            } else {
                Err(ProtocolError::ProtocolViolation("expected AuthenticationResult"))
            },
            SessionPhase::Active | SessionPhase::Draining => self.active_result(body),
            SessionPhase::Closed => Err(ProtocolError::Closed),
        }
    }

    /// The outcome of `receive_frame`.
    pub open spec fn inbound_result(&self, frame: GatewayFrame) -> Result<(), ProtocolError> {
        if self.phase_spec() == SessionPhase::Closed {
            Err(ProtocolError::Closed)
        } else {
            match frame_result(frame, Seq::empty()) {
                Err(e) => Err(e),
                Ok(()) => if frame.sequence != self.next_receive() {
                    Err(ProtocolError::InvalidSequence)
                } else if self.next_receive() == u64::MAX {
                    Err(ProtocolError::IntegerOverflow)
                } else {
                    match self.context_result(frame) {
                        Err(e) => Err(e),
                        Ok(()) => match frame.body {
                            Some(body) => self.phase_accepts(body),
                            None => Err(ProtocolError::MissingBody),
                        },
                    }
                },
            }
        }
    }

    /// The phase after the session accepted `body`.
    pub open spec fn phase_after(&self, body: Body) -> SessionPhase {
        if self.active_or_draining() {
            match body {
                Body::GoAway(_) => SessionPhase::Draining,
                Body::Error(m) => if m.fatal {
                    SessionPhase::Closed
                } else {
                    self.phase_spec()
                },
                _ => self.phase_spec(),
            }
        } else {
            self.phase_spec()
        }
    }

    fn validate_context(&self, frame: &GatewayFrame) -> (result: Result<(), ProtocolError>)
        ensures
            result == self.context_result(*frame),
    {
        match self.phase {
            SessionPhase::AwaitingClientHello => match &frame.body {
                Some(Body::ClientHello(hello)) => {
                    let maximum = match hello.supported_versions {
                        Some(range) => range.maximum,
                        None => None,
                    };
                    let same = match (maximum, frame.version) {
                        (Some(a), Some(b)) => a.major == b.major && a.minor == b.minor,
                        (None, None) => true,
                        _ => false,
                    };
                    if frame.session_id.len() == 0 && same {
                        Ok(())
                    } else {
                        Err(ProtocolError::InvalidSession)
                    }
                },
                _ => Err(ProtocolError::InvalidSession),
            },
            SessionPhase::AwaitingServerHello => match &frame.body {
                Some(Body::ServerHello(hello)) => {
                    let same = match (hello.selected_version, frame.version) {
                        (Some(a), Some(b)) => a.major == b.major && a.minor == b.minor,
                        (None, None) => true,
                        _ => false,
                    };
                    if crate::text::bytes_equal(
                        frame.session_id.as_slice(),
                        hello.ephemeral_session_id.as_slice(),
                    ) && same {
                        Ok(())
                    } else {
                        Err(ProtocolError::InvalidSession)
                    }
                },
                Some(Body::Error(_)) | Some(Body::GoAway(_)) => if frame.session_id.len() == 0 {
                    Ok(())
                } else {
                    Err(ProtocolError::InvalidSession)
                },
                _ => Err(ProtocolError::InvalidSession),
            },
            SessionPhase::Closed => Err(ProtocolError::Closed),
            _ => {
                if !crate::text::bytes_equal(frame.session_id.as_slice(), self.session_id.as_slice()) {
                    return Err(ProtocolError::InvalidSession);
                }
                match self.selected_version {
                    None => Err(ProtocolError::InvalidSession),
                    Some(v) => match frame.version {
                        Some(w) => if v.major == w.major && v.minor == w.minor {
                            Ok(())
                        } else {
                            Err(ProtocolError::ProtocolViolation("version changed after negotiation"))
                        },
                        None => Err(ProtocolError::ProtocolViolation("version changed after negotiation")),
                    },
                }
            },
        }
    }

}

impl<T> Session<T> {
    fn local_index(&self, query_id: u64) -> (found: Option<usize>)
        ensures
            match found {
                Some(i) => i < self.local_resolves@.len() && self.local_resolves@[i as int] == query_id,
                None => !self.local_resolves@.contains(query_id),
            },
    {
        let mut i: usize = 0;
        while i < self.local_resolves.len()
            invariant
                i <= self.local_resolves@.len(),
                forall|k: int| 0 <= k < i ==> self.local_resolves@[k] != query_id,
            decreases self.local_resolves@.len() - i,
        {
            if self.local_resolves[i] == query_id {
                return Some(i);
            }
            i = i + 1;
        }
        None
    }

    /// Applies a body accepted while active or draining.
    fn apply_active_inbound(&mut self, body: &Body, now_ms: u64) -> (result: Result<(), ProtocolError>)
        requires
            old(self).wf(),
            old(self).active_or_draining(),
        ensures
            final(self).wf(),
            result == old(self).active_result(*body),
            final(self).role() == old(self).role(),
            final(self).capabilities() == old(self).capabilities(),
            final(self).session_id_spec() == old(self).session_id_spec(),
            final(self).negotiated_version() == old(self).negotiated_version(),
            final(self).outbound_version() == old(self).outbound_version(),
            final(self).next_receive() == old(self).next_receive(),
            final(self).next_send() == old(self).next_send(),
            final(self).frame_limit() == old(self).frame_limit(),
            final(self).limits() == old(self).limits(),
            result is Ok ==> {
                &&& final(self).phase_spec() == old(self).phase_after(*body)
                &&& match (old(self).flow(), final(self).flow()) {
                    (Some(f), Some(g)) => inbound_flow_step(f, g, *body, now_ms),
                    (None, None) => true,
                    _ => false,
                }
                &&& final(self).scheduler().control() == old(self).scheduler().control()
                &&& final(self).scheduler().streams() == match *body {
                    Body::CloseStream(m) => ring_after_cancel(old(self).scheduler().streams(), m.stream_id),
                    _ => old(self).scheduler().streams(),
                }
                &&& final(self).remote_resolves() == match *body {
                    Body::ResolveDomain(m) => old(self).remote_resolves().push(m.query_id),
                    _ => old(self).remote_resolves(),
                }
                &&& match *body {
                    Body::ResolveResult(m) => exists|i: int|
                        0 <= i < old(self).local_resolves().len() && old(self).local_resolves()[i]
                            == m.query_id && final(self).local_resolves()
                            == old(self).local_resolves().remove(i),
                    _ => final(self).local_resolves() == old(self).local_resolves(),
                }
            },
    {
        match body {
            Body::OpenTcpStream(m) => self.inbound_open(m, now_ms),
            Body::TcpStreamOpened(m) => self.inbound_opened(m, now_ms),
            Body::TcpStreamRejected(m) => self.inbound_rejected(m, now_ms),
            Body::Data(m) => self.inbound_data(m, now_ms),
            Body::WindowUpdate(m) => self.inbound_window(m, now_ms),
            Body::HalfClose(m) => self.inbound_half_close(m, now_ms),
            Body::CloseStream(m) => self.inbound_close(m, now_ms),
            Body::ResolveDomain(m) => self.inbound_resolve(m, now_ms),
            Body::ResolveResult(m) => self.inbound_resolve_result(m, now_ms),
            Body::GoAway(_) => {
                self.phase = SessionPhase::Draining;
                Ok(())
            },
            Body::Error(m) => {
                if m.fatal {
                    self.phase = SessionPhase::Closed;
                }
                Ok(())
            },
            Body::ClientHello(_) | Body::ServerHello(_) | Body::Authenticate(_)
            | Body::AuthenticationResult(_) => Err(
                ProtocolError::ProtocolViolation("handshake message after authentication"),
            ),
            Body::RotateSession(_) | Body::SessionRotated(_) => {
                self.require_capability(session_rotation_bytes().as_slice())?;
                Ok(())
            },
            Body::Ping(_) | Body::Pong(_) => Ok(()),
        }
    }

    #[verifier::rlimit(30)]
    fn inbound_open(&mut self, m: &OpenTcpStream, now_ms: u64) -> (result: Result<(), ProtocolError>)
        requires
            old(self).wf(),
            old(self).active_or_draining(),
        ensures
            final(self).wf(),
            result == old(self).active_result(Body::OpenTcpStream(*m)),
            final(self).role() == old(self).role(),
            final(self).capabilities() == old(self).capabilities(),
            final(self).session_id_spec() == old(self).session_id_spec(),
            final(self).negotiated_version() == old(self).negotiated_version(),
            final(self).outbound_version() == old(self).outbound_version(),
            final(self).next_receive() == old(self).next_receive(),
            final(self).next_send() == old(self).next_send(),
            final(self).frame_limit() == old(self).frame_limit(),
            final(self).limits() == old(self).limits(),
            result is Ok ==> {
                &&& final(self).phase_spec() == old(self).phase_after(Body::OpenTcpStream(*m))
                &&& match (old(self).flow(), final(self).flow()) {
                    (Some(f), Some(g)) => inbound_flow_step(f, g, Body::OpenTcpStream(*m), now_ms),
                    (None, None) => true,
                    _ => false,
                }
                &&& final(self).scheduler().control() == old(self).scheduler().control()
                &&& final(self).scheduler().streams() == match Body::OpenTcpStream(*m) {
                    Body::CloseStream(m) => ring_after_cancel(old(self).scheduler().streams(), m.stream_id),
                    _ => old(self).scheduler().streams(),
                }
                &&& final(self).remote_resolves() == match Body::OpenTcpStream(*m) {
                    Body::ResolveDomain(m) => old(self).remote_resolves().push(m.query_id),
                    _ => old(self).remote_resolves(),
                }
                &&& match Body::OpenTcpStream(*m) {
                    Body::ResolveResult(m) => exists|i: int|
                        0 <= i < old(self).local_resolves().len() && old(self).local_resolves()[i]
                            == m.query_id && final(self).local_resolves()
                            == old(self).local_resolves().remove(i),
                    _ => final(self).local_resolves() == old(self).local_resolves(),
                }
            },
    {
        self.require_capability(tcp_connect_bytes().as_slice())?;
        if self.local_role != PeerRole::Server || self.phase == SessionPhase::Draining {
            return Err(ProtocolError::ProtocolViolation("new stream not permitted"));
        }
        match self.flow.as_mut() {
            Some(flow) => flow.receive_open(m.stream_id, m.initial_receive_window, now_ms)?,
            None => return Err(ProtocolError::InvalidSession),
        }
        Ok(())
    }

    #[verifier::rlimit(30)]
    fn inbound_opened(&mut self, m: &TcpStreamOpened, now_ms: u64) -> (result: Result<(), ProtocolError>)
        requires
            old(self).wf(),
            old(self).active_or_draining(),
        ensures
            final(self).wf(),
            result == old(self).active_result(Body::TcpStreamOpened(*m)),
            final(self).role() == old(self).role(),
            final(self).capabilities() == old(self).capabilities(),
            final(self).session_id_spec() == old(self).session_id_spec(),
            final(self).negotiated_version() == old(self).negotiated_version(),
            final(self).outbound_version() == old(self).outbound_version(),
            final(self).next_receive() == old(self).next_receive(),
            final(self).next_send() == old(self).next_send(),
            final(self).frame_limit() == old(self).frame_limit(),
            final(self).limits() == old(self).limits(),
            result is Ok ==> {
                &&& final(self).phase_spec() == old(self).phase_after(Body::TcpStreamOpened(*m))
                &&& match (old(self).flow(), final(self).flow()) {
                    (Some(f), Some(g)) => inbound_flow_step(f, g, Body::TcpStreamOpened(*m), now_ms),
                    (None, None) => true,
                    _ => false,
                }
                &&& final(self).scheduler().control() == old(self).scheduler().control()
                &&& final(self).scheduler().streams() == match Body::TcpStreamOpened(*m) {
                    Body::CloseStream(m) => ring_after_cancel(old(self).scheduler().streams(), m.stream_id),
                    _ => old(self).scheduler().streams(),
                }
                &&& final(self).remote_resolves() == match Body::TcpStreamOpened(*m) {
                    Body::ResolveDomain(m) => old(self).remote_resolves().push(m.query_id),
                    _ => old(self).remote_resolves(),
                }
                &&& match Body::TcpStreamOpened(*m) {
                    Body::ResolveResult(m) => exists|i: int|
                        0 <= i < old(self).local_resolves().len() && old(self).local_resolves()[i]
                            == m.query_id && final(self).local_resolves()
                            == old(self).local_resolves().remove(i),
                    _ => final(self).local_resolves() == old(self).local_resolves(),
                }
            },
    {
        self.require_capability(tcp_connect_bytes().as_slice())?;
        if self.local_role != PeerRole::Client {
            return Err(ProtocolError::ProtocolViolation("unexpected stream opened"));
        }
        match self.flow.as_mut() {
            Some(flow) => flow.confirm_local_open(m.stream_id, m.initial_receive_window, now_ms)?,
            None => return Err(ProtocolError::InvalidSession),
        }
        Ok(())
    }

    #[verifier::rlimit(30)]
    fn inbound_rejected(&mut self, m: &TcpStreamRejected, now_ms: u64) -> (result: Result<(), ProtocolError>)
        requires
            old(self).wf(),
            old(self).active_or_draining(),
        ensures
            final(self).wf(),
            result == old(self).active_result(Body::TcpStreamRejected(*m)),
            final(self).role() == old(self).role(),
            final(self).capabilities() == old(self).capabilities(),
            final(self).session_id_spec() == old(self).session_id_spec(),
            final(self).negotiated_version() == old(self).negotiated_version(),
            final(self).outbound_version() == old(self).outbound_version(),
            final(self).next_receive() == old(self).next_receive(),
            final(self).next_send() == old(self).next_send(),
            final(self).frame_limit() == old(self).frame_limit(),
            final(self).limits() == old(self).limits(),
            result is Ok ==> {
                &&& final(self).phase_spec() == old(self).phase_after(Body::TcpStreamRejected(*m))
                &&& match (old(self).flow(), final(self).flow()) {
                    (Some(f), Some(g)) => inbound_flow_step(f, g, Body::TcpStreamRejected(*m), now_ms),
                    (None, None) => true,
                    _ => false,
                }
                &&& final(self).scheduler().control() == old(self).scheduler().control()
                &&& final(self).scheduler().streams() == match Body::TcpStreamRejected(*m) {
                    Body::CloseStream(m) => ring_after_cancel(old(self).scheduler().streams(), m.stream_id),
                    _ => old(self).scheduler().streams(),
                }
                &&& final(self).remote_resolves() == match Body::TcpStreamRejected(*m) {
                    Body::ResolveDomain(m) => old(self).remote_resolves().push(m.query_id),
                    _ => old(self).remote_resolves(),
                }
                &&& match Body::TcpStreamRejected(*m) {
                    Body::ResolveResult(m) => exists|i: int|
                        0 <= i < old(self).local_resolves().len() && old(self).local_resolves()[i]
                            == m.query_id && final(self).local_resolves()
                            == old(self).local_resolves().remove(i),
                    _ => final(self).local_resolves() == old(self).local_resolves(),
                }
            },
    {
        self.require_capability(tcp_connect_bytes().as_slice())?;
        if self.local_role != PeerRole::Client {
            return Err(ProtocolError::ProtocolViolation("unexpected stream rejected"));
        }
        match self.flow.as_mut() {
            Some(flow) => flow.reject_or_close(m.stream_id)?,
            None => return Err(ProtocolError::InvalidSession),
        }
        Ok(())
    }

    #[verifier::rlimit(30)]
    fn inbound_data(&mut self, m: &Data, now_ms: u64) -> (result: Result<(), ProtocolError>)
        requires
            old(self).wf(),
            old(self).active_or_draining(),
        ensures
            final(self).wf(),
            result == old(self).active_result(Body::Data(*m)),
            final(self).role() == old(self).role(),
            final(self).capabilities() == old(self).capabilities(),
            final(self).session_id_spec() == old(self).session_id_spec(),
            final(self).negotiated_version() == old(self).negotiated_version(),
            final(self).outbound_version() == old(self).outbound_version(),
            final(self).next_receive() == old(self).next_receive(),
            final(self).next_send() == old(self).next_send(),
            final(self).frame_limit() == old(self).frame_limit(),
            final(self).limits() == old(self).limits(),
            result is Ok ==> {
                &&& final(self).phase_spec() == old(self).phase_after(Body::Data(*m))
                &&& match (old(self).flow(), final(self).flow()) {
                    (Some(f), Some(g)) => inbound_flow_step(f, g, Body::Data(*m), now_ms),
                    (None, None) => true,
                    _ => false,
                }
                &&& final(self).scheduler().control() == old(self).scheduler().control()
                &&& final(self).scheduler().streams() == match Body::Data(*m) {
                    Body::CloseStream(m) => ring_after_cancel(old(self).scheduler().streams(), m.stream_id),
                    _ => old(self).scheduler().streams(),
                }
                &&& final(self).remote_resolves() == match Body::Data(*m) {
                    Body::ResolveDomain(m) => old(self).remote_resolves().push(m.query_id),
                    _ => old(self).remote_resolves(),
                }
                &&& match Body::Data(*m) {
                    Body::ResolveResult(m) => exists|i: int|
                        0 <= i < old(self).local_resolves().len() && old(self).local_resolves()[i]
                            == m.query_id && final(self).local_resolves()
                            == old(self).local_resolves().remove(i),
                    _ => final(self).local_resolves() == old(self).local_resolves(),
                }
            },
    {
        self.require_capability(tcp_connect_bytes().as_slice())?;
        match self.flow.as_mut() {
            Some(flow) => flow.debit_receive(m.stream_id, m.payload.len(), now_ms)?,
            None => return Err(ProtocolError::InvalidSession),
        }
        Ok(())
    }

    #[verifier::rlimit(30)]
    fn inbound_window(&mut self, m: &WindowUpdate, now_ms: u64) -> (result: Result<(), ProtocolError>)
        requires
            old(self).wf(),
            old(self).active_or_draining(),
        ensures
            final(self).wf(),
            result == old(self).active_result(Body::WindowUpdate(*m)),
            final(self).role() == old(self).role(),
            final(self).capabilities() == old(self).capabilities(),
            final(self).session_id_spec() == old(self).session_id_spec(),
            final(self).negotiated_version() == old(self).negotiated_version(),
            final(self).outbound_version() == old(self).outbound_version(),
            final(self).next_receive() == old(self).next_receive(),
            final(self).next_send() == old(self).next_send(),
            final(self).frame_limit() == old(self).frame_limit(),
            final(self).limits() == old(self).limits(),
            result is Ok ==> {
                &&& final(self).phase_spec() == old(self).phase_after(Body::WindowUpdate(*m))
                &&& match (old(self).flow(), final(self).flow()) {
                    (Some(f), Some(g)) => inbound_flow_step(f, g, Body::WindowUpdate(*m), now_ms),
                    (None, None) => true,
                    _ => false,
                }
                &&& final(self).scheduler().control() == old(self).scheduler().control()
                &&& final(self).scheduler().streams() == match Body::WindowUpdate(*m) {
                    Body::CloseStream(m) => ring_after_cancel(old(self).scheduler().streams(), m.stream_id),
                    _ => old(self).scheduler().streams(),
                }
                &&& final(self).remote_resolves() == match Body::WindowUpdate(*m) {
                    Body::ResolveDomain(m) => old(self).remote_resolves().push(m.query_id),
                    _ => old(self).remote_resolves(),
                }
                &&& match Body::WindowUpdate(*m) {
                    Body::ResolveResult(m) => exists|i: int|
                        0 <= i < old(self).local_resolves().len() && old(self).local_resolves()[i]
                            == m.query_id && final(self).local_resolves()
                            == old(self).local_resolves().remove(i),
                    _ => final(self).local_resolves() == old(self).local_resolves(),
                }
            },
    {
        self.require_capability(flow_control_bytes().as_slice())?;
        match self.flow.as_mut() {
            Some(flow) => flow.receive_window_update(m.stream_id, m.credit, now_ms)?,
            None => return Err(ProtocolError::InvalidSession),
        }
        Ok(())
    }

    #[verifier::rlimit(30)]
    fn inbound_half_close(&mut self, m: &HalfClose, now_ms: u64) -> (result: Result<(), ProtocolError>)
        requires
            old(self).wf(),
            old(self).active_or_draining(),
        ensures
            final(self).wf(),
            result == old(self).active_result(Body::HalfClose(*m)),
            final(self).role() == old(self).role(),
            final(self).capabilities() == old(self).capabilities(),
            final(self).session_id_spec() == old(self).session_id_spec(),
            final(self).negotiated_version() == old(self).negotiated_version(),
            final(self).outbound_version() == old(self).outbound_version(),
            final(self).next_receive() == old(self).next_receive(),
            final(self).next_send() == old(self).next_send(),
            final(self).frame_limit() == old(self).frame_limit(),
            final(self).limits() == old(self).limits(),
            result is Ok ==> {
                &&& final(self).phase_spec() == old(self).phase_after(Body::HalfClose(*m))
                &&& match (old(self).flow(), final(self).flow()) {
                    (Some(f), Some(g)) => inbound_flow_step(f, g, Body::HalfClose(*m), now_ms),
                    (None, None) => true,
                    _ => false,
                }
                &&& final(self).scheduler().control() == old(self).scheduler().control()
                &&& final(self).scheduler().streams() == match Body::HalfClose(*m) {
                    Body::CloseStream(m) => ring_after_cancel(old(self).scheduler().streams(), m.stream_id),
                    _ => old(self).scheduler().streams(),
                }
                &&& final(self).remote_resolves() == match Body::HalfClose(*m) {
                    Body::ResolveDomain(m) => old(self).remote_resolves().push(m.query_id),
                    _ => old(self).remote_resolves(),
                }
                &&& match Body::HalfClose(*m) {
                    Body::ResolveResult(m) => exists|i: int|
                        0 <= i < old(self).local_resolves().len() && old(self).local_resolves()[i]
                            == m.query_id && final(self).local_resolves()
                            == old(self).local_resolves().remove(i),
                    _ => final(self).local_resolves() == old(self).local_resolves(),
                }
            },
    {
        self.require_capability(tcp_connect_bytes().as_slice())?;
        match self.flow.as_mut() {
            Some(flow) => flow.receive_half_close(m.stream_id, now_ms)?,
            None => return Err(ProtocolError::InvalidSession),
        }
        Ok(())
    }

    #[verifier::rlimit(30)]
    fn inbound_close(&mut self, m: &CloseStream, now_ms: u64) -> (result: Result<(), ProtocolError>)
        requires
            old(self).wf(),
            old(self).active_or_draining(),
        ensures
            final(self).wf(),
            result == old(self).active_result(Body::CloseStream(*m)),
            final(self).role() == old(self).role(),
            final(self).capabilities() == old(self).capabilities(),
            final(self).session_id_spec() == old(self).session_id_spec(),
            final(self).negotiated_version() == old(self).negotiated_version(),
            final(self).outbound_version() == old(self).outbound_version(),
            final(self).next_receive() == old(self).next_receive(),
            final(self).next_send() == old(self).next_send(),
            final(self).frame_limit() == old(self).frame_limit(),
            final(self).limits() == old(self).limits(),
            result is Ok ==> {
                &&& final(self).phase_spec() == old(self).phase_after(Body::CloseStream(*m))
                &&& match (old(self).flow(), final(self).flow()) {
                    (Some(f), Some(g)) => inbound_flow_step(f, g, Body::CloseStream(*m), now_ms),
                    (None, None) => true,
                    _ => false,
                }
                &&& final(self).scheduler().control() == old(self).scheduler().control()
                &&& final(self).scheduler().streams() == match Body::CloseStream(*m) {
                    Body::CloseStream(m) => ring_after_cancel(old(self).scheduler().streams(), m.stream_id),
                    _ => old(self).scheduler().streams(),
                }
                &&& final(self).remote_resolves() == match Body::CloseStream(*m) {
                    Body::ResolveDomain(m) => old(self).remote_resolves().push(m.query_id),
                    _ => old(self).remote_resolves(),
                }
                &&& match Body::CloseStream(*m) {
                    Body::ResolveResult(m) => exists|i: int|
                        0 <= i < old(self).local_resolves().len() && old(self).local_resolves()[i]
                            == m.query_id && final(self).local_resolves()
                            == old(self).local_resolves().remove(i),
                    _ => final(self).local_resolves() == old(self).local_resolves(),
                }
            },
    {
        self.require_capability(tcp_connect_bytes().as_slice())?;
        self.scheduler.cancel_stream(m.stream_id);
        match self.flow.as_mut() {
            Some(flow) => flow.reject_or_close(m.stream_id)?,
            None => return Err(ProtocolError::InvalidSession),
        }
        Ok(())
    }

    #[verifier::rlimit(30)]
    fn inbound_resolve(&mut self, m: &ResolveDomain, now_ms: u64) -> (result: Result<(), ProtocolError>)
        requires
            old(self).wf(),
            old(self).active_or_draining(),
        ensures
            final(self).wf(),
            result == old(self).active_result(Body::ResolveDomain(*m)),
            final(self).role() == old(self).role(),
            final(self).capabilities() == old(self).capabilities(),
            final(self).session_id_spec() == old(self).session_id_spec(),
            final(self).negotiated_version() == old(self).negotiated_version(),
            final(self).outbound_version() == old(self).outbound_version(),
            final(self).next_receive() == old(self).next_receive(),
            final(self).next_send() == old(self).next_send(),
            final(self).frame_limit() == old(self).frame_limit(),
            final(self).limits() == old(self).limits(),
            result is Ok ==> {
                &&& final(self).phase_spec() == old(self).phase_after(Body::ResolveDomain(*m))
                &&& match (old(self).flow(), final(self).flow()) {
                    (Some(f), Some(g)) => inbound_flow_step(f, g, Body::ResolveDomain(*m), now_ms),
                    (None, None) => true,
                    _ => false,
                }
                &&& final(self).scheduler().control() == old(self).scheduler().control()
                &&& final(self).scheduler().streams() == match Body::ResolveDomain(*m) {
                    Body::CloseStream(m) => ring_after_cancel(old(self).scheduler().streams(), m.stream_id),
                    _ => old(self).scheduler().streams(),
                }
                &&& final(self).remote_resolves() == match Body::ResolveDomain(*m) {
                    Body::ResolveDomain(m) => old(self).remote_resolves().push(m.query_id),
                    _ => old(self).remote_resolves(),
                }
                &&& match Body::ResolveDomain(*m) {
                    Body::ResolveResult(m) => exists|i: int|
                        0 <= i < old(self).local_resolves().len() && old(self).local_resolves()[i]
                            == m.query_id && final(self).local_resolves()
                            == old(self).local_resolves().remove(i),
                    _ => final(self).local_resolves() == old(self).local_resolves(),
                }
            },
    {
        self.require_capability(resolve_domain_bytes().as_slice())?;
        if self.local_role != PeerRole::Server || self.phase == SessionPhase::Draining {
            return Err(ProtocolError::ProtocolViolation("resolve not permitted"));
        }
        if m.query_id <= self.maximum_seen_remote_query_id || self.remote_resolves.len()
            >= self.limits.maximum_outstanding_resolves {
            return Err(ProtocolError::InvalidStreamId);
        }
        let ghost before = self.remote_resolves@;
        self.maximum_seen_remote_query_id = m.query_id;
        self.remote_resolves.push(m.query_id);
        proof {
            assert forall|i: int, j: int| 0 <= i < j < self.remote_resolves@.len() implies
                #[trigger] self.remote_resolves@[i] != #[trigger] self.remote_resolves@[j] by {
                if j == before.len() {
                    assert(before[i] <= old(self).maximum_seen_remote_query_id);
                } else {
                    assert(before[i] != before[j]);
                }
            }
            assert forall|i: int| 0 <= i < self.remote_resolves@.len() implies
                #[trigger] self.remote_resolves@[i] <= self.maximum_seen_remote_query_id by {
                if i < before.len() {
                    assert(before[i] <= old(self).maximum_seen_remote_query_id);
                }
            }
        }
        Ok(())
    }

    #[verifier::rlimit(30)]
    fn inbound_resolve_result(&mut self, m: &ResolveResult, now_ms: u64) -> (result: Result<(), ProtocolError>)
        requires
            old(self).wf(),
            old(self).active_or_draining(),
        ensures
            final(self).wf(),
            result == old(self).active_result(Body::ResolveResult(*m)),
            final(self).role() == old(self).role(),
            final(self).capabilities() == old(self).capabilities(),
            final(self).session_id_spec() == old(self).session_id_spec(),
            final(self).negotiated_version() == old(self).negotiated_version(),
            final(self).outbound_version() == old(self).outbound_version(),
            final(self).next_receive() == old(self).next_receive(),
            final(self).next_send() == old(self).next_send(),
            final(self).frame_limit() == old(self).frame_limit(),
            final(self).limits() == old(self).limits(),
            result is Ok ==> {
                &&& final(self).phase_spec() == old(self).phase_after(Body::ResolveResult(*m))
                &&& match (old(self).flow(), final(self).flow()) {
                    (Some(f), Some(g)) => inbound_flow_step(f, g, Body::ResolveResult(*m), now_ms),
                    (None, None) => true,
                    _ => false,
                }
                &&& final(self).scheduler().control() == old(self).scheduler().control()
                &&& final(self).scheduler().streams() == match Body::ResolveResult(*m) {
                    Body::CloseStream(m) => ring_after_cancel(old(self).scheduler().streams(), m.stream_id),
                    _ => old(self).scheduler().streams(),
                }
                &&& final(self).remote_resolves() == match Body::ResolveResult(*m) {
                    Body::ResolveDomain(m) => old(self).remote_resolves().push(m.query_id),
                    _ => old(self).remote_resolves(),
                }
                &&& match Body::ResolveResult(*m) {
                    Body::ResolveResult(m) => exists|i: int|
                        0 <= i < old(self).local_resolves().len() && old(self).local_resolves()[i]
                            == m.query_id && final(self).local_resolves()
                            == old(self).local_resolves().remove(i),
                    _ => final(self).local_resolves() == old(self).local_resolves(),
                }
            },
    {
        self.require_capability(resolve_domain_bytes().as_slice())?;
        if self.local_role != PeerRole::Client {
            return Err(ProtocolError::InvalidStreamId);
        }
        let index = match self.local_index(m.query_id) {
            Some(i) => i,
            None => return Err(ProtocolError::InvalidStreamId),
        };
        let ghost before = self.local_resolves@;
        self.local_resolves.remove(index);
        proof {
            assert forall|i: int, j: int| 0 <= i < j < self.local_resolves@.len() implies
                #[trigger] self.local_resolves@[i] != #[trigger] self.local_resolves@[j] by {
                let a = if i < index { i } else { i + 1 };
                let b = if j < index { j } else { j + 1 };
                assert(before[a] != before[b]);
            }
            assert forall|i: int| 0 <= i < self.local_resolves@.len() implies
                #[trigger] self.local_resolves@[i] <= self.maximum_seen_local_query_id by {
                let a = if i < index { i } else { i + 1 };
                assert(before[a] <= self.maximum_seen_local_query_id);
            }
        }
        Ok(())
    }

}

impl<T> Session<T> {
    fn receive_inner(&mut self, frame: GatewayFrame, now_ms: u64) -> (result: Result<
        Body,
        ProtocolError,
    >)
        requires
            old(self).wf(),
            old(self).phase_spec() != SessionPhase::Closed,
        ensures
            final(self).wf(),
            match (result, old(self).inbound_result(frame)) {
                (Ok(b), Ok(())) => frame.body == Some(b),
                (Err(e), Err(f)) => e == f,
                _ => false,
            },
            final(self).role() == old(self).role(),
            final(self).capabilities() == old(self).capabilities(),
            final(self).session_id_spec() == old(self).session_id_spec(),
            final(self).negotiated_version() == old(self).negotiated_version(),
            final(self).outbound_version() == old(self).outbound_version(),
            final(self).next_send() == old(self).next_send(),
            result matches Ok(b) ==> {
                &&& final(self).next_receive() == old(self).next_receive() + 1
                &&& final(self).phase_spec() == old(self).phase_after(b)
                &&& old(self).active_or_draining() ==> match (old(self).flow(), final(self).flow()) {
                    (Some(f), Some(g)) => inbound_flow_step(f, g, b, now_ms),
                    (None, None) => true,
                    _ => false,
                }
                &&& !old(self).active_or_draining() ==> final(self).flow() == old(self).flow()
                    && final(self).scheduler() == old(self).scheduler()
            },
    {
        validate_frame(&frame, self.enabled_critical_extensions.as_slice())?;
        proof {
            assert(self.enabled_critical_extensions@ =~= Seq::<u32>::empty());
        }
        if frame.sequence != self.next_receive_sequence {
            return Err(ProtocolError::InvalidSequence);
        }
        self.next_receive_sequence = match self.next_receive_sequence.checked_add(1) {
            Some(next) => next,
            None => return Err(ProtocolError::IntegerOverflow),
        };
        self.validate_context(&frame)?;
        let body = match frame.body {
            Some(body) => body,
            None => return Err(ProtocolError::MissingBody),
        };
        match self.phase {
            SessionPhase::AwaitingClientHello => match body {
                Body::ClientHello(_) => {},
                _ => return Err(ProtocolError::ProtocolViolation("expected ClientHello")),
            },
            SessionPhase::AwaitingServerHello => match body {
                Body::ServerHello(_) | Body::Error(_) | Body::GoAway(_) => {},
                _ => return Err(ProtocolError::ProtocolViolation("expected ServerHello")),
            },
            SessionPhase::AwaitingAuthentication => match body {
                Body::Authenticate(_) | Body::Error(_) | Body::GoAway(_) => {},
                _ => return Err(ProtocolError::ProtocolViolation("expected Authenticate")),
            },
            SessionPhase::AwaitingAuthenticationResult => match body {
                Body::AuthenticationResult(_) | Body::Error(_) | Body::GoAway(_) => {},
                _ => return Err(ProtocolError::ProtocolViolation("expected AuthenticationResult")),
            },
            SessionPhase::Active | SessionPhase::Draining => {
                self.apply_active_inbound(&body, now_ms)?;
            },
            SessionPhase::Closed => return Err(ProtocolError::Closed),
        }
        Ok(body)
    }

    /// Takes one decoded inbound frame. Any error closes the session.
    pub fn receive_frame(&mut self, frame: GatewayFrame, now_ms: u64) -> (result: Result<
        Body,
        ProtocolError,
    >)
        requires
            old(self).wf(),
        ensures
            final(self).wf(),
            match (result, old(self).inbound_result(frame)) {
                (Ok(b), Ok(())) => frame.body == Some(b),
                (Err(e), Err(f)) => e == f,
                _ => false,
            },
            result is Err ==> final(self).phase_spec() == SessionPhase::Closed,
            final(self).role() == old(self).role(),
            final(self).capabilities() == old(self).capabilities(),
            final(self).session_id_spec() == old(self).session_id_spec(),
            final(self).negotiated_version() == old(self).negotiated_version(),
            result matches Ok(b) ==> {
                &&& final(self).next_receive() == old(self).next_receive() + 1
                &&& final(self).phase_spec() == old(self).phase_after(b)
                &&& old(self).active_or_draining() ==> match (old(self).flow(), final(self).flow()) {
                    (Some(f), Some(g)) => inbound_flow_step(f, g, b, now_ms),
                    (None, None) => true,
                    _ => false,
                }
                &&& !old(self).active_or_draining() ==> final(self).flow() == old(self).flow()
                    && final(self).scheduler() == old(self).scheduler()
            },
    {
        if self.phase == SessionPhase::Closed {
            return Err(ProtocolError::Closed);
        }
        match self.receive_inner(frame, now_ms) {
            Ok(body) => Ok(body),
            Err(e) => {
                self.phase = SessionPhase::Closed;
                Err(e)
            },
        }
    }

    /// Takes the next scheduled body and frames it with the next sequence
    /// number, or reports that nothing is queued. Any error closes the session.
    pub fn next_outbound_frame(&mut self) -> (result: Result<Option<GatewayFrame>, ProtocolError>)
        requires
            old(self).wf(),
        ensures
            final(self).wf(),
            old(self).phase_spec() == SessionPhase::Closed ==> result == Err::<
                Option<GatewayFrame>,
                ProtocolError,
            >(ProtocolError::Closed) && *final(self) == *old(self),
            old(self).phase_spec() != SessionPhase::Closed ==> {
                let (next, control, streams, burst) = crate::fair_queue::pop_outcome(
                    old(self).scheduler().control(),
                    old(self).scheduler().streams(),
                    old(self).scheduler().burst(),
                );
                &&& final(self).scheduler().control() == control
                &&& final(self).scheduler().streams() == streams
                &&& final(self).scheduler().burst() == burst
                &&& final(self).flow() == old(self).flow()
                &&& match next {
                    None => result == Ok::<Option<GatewayFrame>, ProtocolError>(None)
                        && final(self).phase_spec() == old(self).phase_spec(),
                    Some((body, _)) => if old(self).next_send() == u64::MAX {
                        result == Err::<Option<GatewayFrame>, ProtocolError>(
                            ProtocolError::IntegerOverflow,
                        ) && final(self).phase_spec() == SessionPhase::Closed
                    } else {
                        match body_result(body) {
                            Err(e) => result == Err::<Option<GatewayFrame>, ProtocolError>(e)
                                && final(self).phase_spec() == SessionPhase::Closed,
                            Ok(()) => final(self).next_send() == old(self).next_send() + 1
                                && final(self).phase_spec() == old(self).phase_spec() && match result {
                                Ok(Some(frame)) => frame.sequence == old(self).next_send()
                                    && frame.version == Some(old(self).outbound_version())
                                    && frame.critical_extension_ids@.len() == 0
                                    && frame.session_id@ == old(self).session_id_spec()
                                    && frame.body == Some(body),
                                _ => false,
                            },
                        }
                    },
                }
            },
    {
        if self.phase == SessionPhase::Closed {
            return Err(ProtocolError::Closed);
        }
        let item = match self.scheduler.pop_next() {
            Some(item) => item,
            None => return Ok(None),
        };
        let sequence = self.next_send_sequence;
        self.next_send_sequence = match self.next_send_sequence.checked_add(1) {
            Some(next) => next,
            None => {
                self.phase = SessionPhase::Closed;
                return Err(ProtocolError::IntegerOverflow);
            },
        };
        let frame = GatewayFrame {
            sequence,
            version: Some(self.outbound_version),
            critical_extension_ids: Vec::new(),
            session_id: crate::gateway::framing::copy_bytes(self.session_id.as_slice()),
            body: Some(item.body),
        };
        match validate_frame(&frame, self.enabled_critical_extensions.as_slice()) {
            Ok(()) => {},
            Err(e) => {
                self.phase = SessionPhase::Closed;
                return Err(e);
            },
        }
        Ok(Some(frame))
    }
}

/// The GoAway of a graceful shutdown.
pub fn graceful_go_away(last_accepted_stream_id: u64, drain_timeout_ms: u32) -> (message: GoAway)
    ensures
        message == (GoAway { last_accepted_stream_id, code: ErrorCode::Unspecified, drain_timeout_ms }),
{
    GoAway { last_accepted_stream_id, code: ErrorCode::Unspecified, drain_timeout_ms }
}

/// A closed session is closed for good: it accepts no frame, queues nothing
/// and yields no frame.
pub proof fn lemma_closed_is_final<T>(s: Session<T>, frame: GatewayFrame, stream_id: u64, payload: Seq<u8>, body: Body)
    requires
        s.phase_spec() == SessionPhase::Closed,
    ensures
        s.inbound_result(frame) == Err::<(), ProtocolError>(ProtocolError::Closed),
        s.data_result(stream_id, payload) == Err::<usize, ProtocolError>(ProtocolError::Closed),
        s.control_result(body) == Err::<(), ProtocolError>(ProtocolError::Closed),
        !s.active_client() && !s.active_server() && !s.active_or_draining() && !s.in_handshake(),
{
}

} // verus!
