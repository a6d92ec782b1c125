//! The per-session stream table of the exit daemon: which streams are being
//! connected, which are open with how much inbound credit, and what each
//! client frame and each egress event does to them.
use std::collections::{HashMap, HashSet};
use vstd::prelude::*;

use crate::daemon::acl::Destination;
use crate::daemon::config::LimitConfig;
use crate::daemon::dns::IpAddress;
use crate::daemon::error::{GatewayError, GatewayErrorCode};
use crate::daemon::wire::{
    Body, DnsQuery, OpenTcpRequest, Ping, Value, WindowUpdate,
};

verus! {

broadcast use vstd::std_specs::hash::group_hash_axioms;

/// The bookkeeping of one open stream: the bytes the client may still send
/// and which directions are closed.
#[derive(Clone, Copy, Debug, PartialEq, Eq, Structural)]
pub struct StreamRecord {
    pub inbound_credit: usize,
    pub local_closed: bool,
    pub remote_closed: bool,
}

/// The abstract value of a stream table.
pub struct TableModel {
    /// Open streams by identifier.
    pub active: Map<u64, StreamRecord>,
    /// Streams whose egress connection is being made.
    pub pending: Set<u64>,
    pub active_count: nat,
    pub pending_count: nat,
    /// The largest stream identifier the client has opened.
    pub highest: u64,
}

/// Open and connecting streams of one session. Identifiers are distinct,
/// never both open and connecting, and never above the highest one seen.
pub struct StreamTable {
    streams: HashMap<u64, StreamRecord>,
    pending: HashSet<u64>,
    highest_stream_id: u64,
}

impl View for StreamTable {
    type V = TableModel;

    closed spec fn view(&self) -> TableModel {
        TableModel {
            active: self.streams@,
            pending: self.pending@,
            active_count: self.streams@.len(),
            pending_count: self.pending@.len(),
            highest: self.highest_stream_id,
        }
    }
}

/// What the daemon does after an `OpenTcpRequest` passes its checks.
#[derive(Clone, Debug, PartialEq)]
pub enum OpenDecision {
    /// Connect to the destination; the answer comes later as an egress event.
    Connect { stream_id: u64, destination: Destination, port: u16, initial_window: usize },
    /// The session may not open TCP streams: answer with `PolicyDenied`.
    Deny { stream_id: u64 },
}

/// What the daemon does after writing a client's data to the egress stream.
#[derive(Clone, Copy, Debug, PartialEq, Eq, Structural)]
pub enum DataOutcome {
    /// Return the credit to the client with a window update.
    Acknowledge,
    /// The write failed: the stream is gone; reset it with `EgressFailure`.
    Reset,
}

/// An event from a stream's egress side.
#[derive(Clone, Copy, Debug, PartialEq, Eq, Structural)]
pub enum EgressEvent {
    Opened { stream_id: u64, connected: bool },
    Data { stream_id: u64 },
    HalfClosed { stream_id: u64 },
    Failed { stream_id: u64 },
}

/// What the daemon sends for an egress event.
#[derive(Clone, Copy, Debug, PartialEq, Eq, Structural)]
pub enum EgressAction {
    /// The stream is no longer known: do nothing.
    Ignore,
    /// The connection is up: answer the open request with success.
    Opened,
    /// The connection failed: answer the open request with the error.
    OpenFailed,
    /// Forward the egress data to the client.
    ForwardData,
    /// Tell the client the egress side closed; `removed` when both sides are
    /// now closed and the stream is gone.
    ForwardHalfClose { removed: bool },
    /// The egress side failed: the stream is gone; reset it.
    Reset,
}

/// What the daemon does for one client frame.
#[derive(Clone, Debug, PartialEq)]
pub enum ClientAction {
    Open(OpenDecision),
    /// Write the frame's payload to the stream's egress side.
    WriteData { stream_id: u64 },
    /// Grant the stream this much outbound credit.
    GrantOutbound { stream_id: u64, credit: u32 },
    /// Shut down the egress side for writing.
    ShutdownWrite { stream_id: u64 },
    /// The stream is gone: stop its egress reader.
    Abort { stream_id: u64 },
    /// Resolve the query.
    Resolve,
    /// Answer the ping.
    Pong,
}

pub open spec fn protocol_violation() -> GatewayError {
    GatewayError { code: GatewayErrorCode::ProtocolViolation }
}

/// The checks an open request must pass before its destination is read.
pub open spec fn open_request_admissible(
    request: OpenTcpRequest,
    model: TableModel,
    limits: LimitConfig,
) -> bool {
    &&& request.stream_id != 0
    &&& request.stream_id % 2 == 1
    &&& request.stream_id > model.highest
    &&& request.port != 0
    &&& request.port <= 65535
    &&& request.initial_window != 0
    &&& request.initial_window <= limits.max_stream_window
    &&& model.active_count + model.pending_count < limits.max_streams_per_session
}

/// The destination of an open request: a hostname, or a 4- or 16-byte address.
pub open spec fn destination_of(request: OpenTcpRequest) -> Option<Destination> {
    match request.destination {
        Some(d) => match d.value {
            Some(Value::Hostname(name)) => Some(Destination::Hostname(name)),
            Some(Value::IpAddress(bytes)) => if bytes@.len() == 4 {
                Some(
                    Destination::Ip(
                        IpAddress::V4([bytes@[0], bytes@[1], bytes@[2], bytes@[3]]),
                    ),
                )
            } else if bytes@.len() == 16 {
                Some(Destination::Ip(IpAddress::V6(seq_to_array16(bytes@))))
            } else {
                None
            },
            None => None,
        },
        None => None,
    }
}

/// The array holding the first sixteen bytes of a sequence.
pub open spec fn seq_to_array16(bytes: Seq<u8>) -> [u8; 16] {
    choose|a: [u8; 16]| a@ == bytes.subrange(0, 16)
}

/// Reads the destination of an open request.
pub fn decode_destination(request: &OpenTcpRequest) -> (result: Result<Destination, GatewayError>)
    ensures
        match destination_of(*request) {
            Some(d) => result == Ok::<Destination, GatewayError>(d),
            None => result == Err::<Destination, GatewayError>(protocol_violation()),
        },
{
    match &request.destination {
        Some(d) => match &d.value {
            Some(Value::Hostname(name)) => Ok(Destination::Hostname(name.clone())),
            Some(Value::IpAddress(bytes)) => {
                if bytes.len() == 4 {
                    Ok(Destination::Ip(IpAddress::V4([bytes[0], bytes[1], bytes[2], bytes[3]])))
                } else if bytes.len() == 16 {
                    let mut octets = [0u8;16];
                    let mut i: usize = 0;
                    while i < 16
                        invariant
                            i <= 16,
                            bytes@.len() == 16,
                            forall|j: int| 0 <= j < i ==> octets@[j] == bytes@[j],
                        decreases 16 - i,
                    {
                        octets.set(i, bytes[i]);
                        i = i + 1;
                    }
                    proof {
                        assert(octets@ =~= bytes@.subrange(0, 16));
                        let c = seq_to_array16(bytes@);
                        assert(c@ == bytes@.subrange(0, 16));
                        assert(c@ =~= octets@);
                        assert(c =~= octets);
                    }
                    Ok(Destination::Ip(IpAddress::V6(octets)))
                } else {
                    Err(GatewayError::new(GatewayErrorCode::ProtocolViolation))
                }
            },
            None => Err(GatewayError::new(GatewayErrorCode::ProtocolViolation)),
        },
        None => Err(GatewayError::new(GatewayErrorCode::ProtocolViolation)),
    }
}

/// Checks a DNS query: the session must hold "dns-wire-v1", and the query
/// must be 1 to 65536 bytes.
pub fn check_dns_query(query: &DnsQuery, dns_allowed: bool) -> (result: Result<(), GatewayError>)
    ensures
        !dns_allowed ==> result == Err::<(), GatewayError>(
            GatewayError { code: GatewayErrorCode::PolicyDenied },
        ),
        dns_allowed && (query.wire_query@.len() == 0 || query.wire_query@.len() > 65536)
            ==> result == Err::<(), GatewayError>(
            GatewayError { code: GatewayErrorCode::MessageTooLarge },
        ),
        dns_allowed && 0 < query.wire_query@.len() <= 65536 ==> result is Ok,
{
    if !dns_allowed {
        return Err(GatewayError::new(GatewayErrorCode::PolicyDenied));
    }
    if query.wire_query.len() == 0 || query.wire_query.len() > 65536 {
        return Err(GatewayError::new(GatewayErrorCode::MessageTooLarge));
    }
    Ok(())
}

/// Checks a ping: its nonce is 16 to 32 bytes.
pub fn check_ping(ping: &Ping) -> (result: Result<(), GatewayError>)
    ensures
        result is Ok <==> 16 <= ping.nonce@.len() <= 32,
        result matches Err(e) ==> e == protocol_violation(),
{
    if ping.nonce.len() < 16 || ping.nonce.len() > 32 {
        return Err(GatewayError::new(GatewayErrorCode::ProtocolViolation));
    }
    Ok(())
}

/// The counts of a table model are the sizes of its sets.
pub open spec fn model_consistent(m: TableModel) -> bool {
    &&& m.active.dom().finite()
    &&& m.active.dom().len() == m.active_count
    &&& m.pending.finite()
    &&& m.pending.len() == m.pending_count
}

/// The table without one open stream.
pub open spec fn without_stream(m: TableModel, stream_id: u64) -> TableModel {
    TableModel { active: m.active.remove(stream_id), active_count: (m.active_count - 1) as nat, ..m }
}

/// The table with one open stream's record replaced.
pub open spec fn with_record(m: TableModel, stream_id: u64, record: StreamRecord) -> TableModel {
    TableModel { active: m.active.insert(stream_id, record), ..m }
}

/// What an open request does: its outcome and the table after it.
pub open spec fn open_step(
    m: TableModel,
    request: OpenTcpRequest,
    limits: LimitConfig,
    tcp_allowed: bool,
) -> (Result<OpenDecision, GatewayError>, TableModel) {
    if !open_request_admissible(request, m, limits) || destination_of(request) is None {
        (Err(protocol_violation()), m)
    } else if !tcp_allowed {
        (Ok(OpenDecision::Deny { stream_id: request.stream_id }), TableModel { highest: request.stream_id, ..m })
    } else {
        (
            Ok(
                OpenDecision::Connect {
                    stream_id: request.stream_id,
                    destination: destination_of(request)->Some_0,
                    port: request.port as u16,
                    initial_window: request.initial_window as usize,
                },
            ),
            TableModel {
                highest: request.stream_id,
                pending: m.pending.insert(request.stream_id),
                pending_count: m.pending_count + 1,
                ..m
            },
        )
    }
}

/// What a client data frame of `payload_len` bytes does before its write.
pub open spec fn data_step(m: TableModel, stream_id: u64, payload_len: usize, limits: LimitConfig) -> (
    Result<(), GatewayError>,
    TableModel,
) {
    let record = m.active[stream_id];
    if payload_len == 0 || payload_len > limits.max_data_bytes {
        (Err(GatewayError { code: GatewayErrorCode::MessageTooLarge }), m)
    } else if !m.active.contains_key(stream_id) || record.local_closed || payload_len
        > record.inbound_credit {
        (Err(protocol_violation()), m)
    } else {
        (
            Ok(()),
            with_record(
                m,
                stream_id,
                StreamRecord { inbound_credit: (record.inbound_credit - payload_len) as usize, ..record },
            ),
        )
    }
}

/// What a client reset does.
pub open spec fn reset_step(m: TableModel, stream_id: u64) -> (Result<(), GatewayError>, TableModel) {
    if m.active.contains_key(stream_id) {
        (Ok(()), without_stream(m, stream_id))
    } else {
        (Err(protocol_violation()), m)
    }
}

/// What one client frame body does: the action, or the error that ends the
/// session, and the table after it.
pub open spec fn client_step(
    m: TableModel,
    body: Body,
    limits: LimitConfig,
    tcp_allowed: bool,
    dns_allowed: bool,
) -> (Result<ClientAction, GatewayError>, TableModel) {
    match body {
        Body::OpenTcpRequest(request) => {
            let (outcome, next) = open_step(m, request, limits, tcp_allowed);
            (
                match outcome {
                    Ok(decision) => Ok(ClientAction::Open(decision)),
                    Err(e) => Err(e),
                },
                next,
            )
        },
        Body::Data(data) => {
            let (outcome, next) = data_step(m, data.stream_id, data.payload@.len() as usize, limits);
            (
                match outcome {
                    Ok(_) => Ok(ClientAction::WriteData { stream_id: data.stream_id }),
                    Err(e) => Err(e),
                },
                next,
            )
        },
        Body::WindowUpdate(update) => if update.credit != 0 && m.active.contains_key(update.stream_id) {
            (Ok(ClientAction::GrantOutbound { stream_id: update.stream_id, credit: update.credit }), m)
        } else {
            (Err(protocol_violation()), m)
        },
        Body::HalfClose(close) => if m.active.contains_key(close.stream_id)
            && !m.active[close.stream_id].local_closed {
            (Ok(ClientAction::ShutdownWrite { stream_id: close.stream_id }), m)
        } else {
            (Err(protocol_violation()), m)
        },
        Body::ResetStream(reset) => {
            let (outcome, next) = reset_step(m, reset.stream_id);
            (
                match outcome {
                    Ok(_) => Ok(ClientAction::Abort { stream_id: reset.stream_id }),
                    Err(e) => Err(e),
                },
                next,
            )
        },
        Body::DnsQuery(query) => if !dns_allowed {
            (Err(GatewayError { code: GatewayErrorCode::PolicyDenied }), m)
        } else if query.wire_query@.len() == 0 || query.wire_query@.len() > 65536 {
            (Err(GatewayError { code: GatewayErrorCode::MessageTooLarge }), m)
        } else {
            (Ok(ClientAction::Resolve), m)
        },
        Body::Ping(ping) => if 16 <= ping.nonce@.len() <= 32 {
            (Ok(ClientAction::Pong), m)
        } else {
            (Err(protocol_violation()), m)
        },
        Body::GoAway(_) => (Err(GatewayError { code: GatewayErrorCode::SessionExpired }), m),
        _ => (Err(protocol_violation()), m),
    }
}

/// What one egress event does: the action and the table after it.
pub open spec fn egress_step(m: TableModel, event: EgressEvent, limits: LimitConfig) -> (EgressAction, TableModel) {
    match event {
        EgressEvent::Opened { stream_id, connected } => if !m.pending.contains(stream_id) {
            (EgressAction::Ignore, m)
        } else {
            let rest = TableModel {
                pending: m.pending.remove(stream_id),
                pending_count: (m.pending_count - 1) as nat,
                ..m
            };
            if connected {
                (
                    EgressAction::Opened,
                    TableModel {
                        active: m.active.insert(
                            stream_id,
                            StreamRecord {
                                inbound_credit: limits.initial_stream_window,
                                local_closed: false,
                                remote_closed: false,
                            },
                        ),
                        active_count: m.active_count + 1,
                        ..rest
                    },
                )
            } else {
                (EgressAction::OpenFailed, rest)
            }
        },
        EgressEvent::Data { stream_id } => if m.active.contains_key(stream_id) {
            (EgressAction::ForwardData, m)
        } else {
            (EgressAction::Ignore, m)
        },
        EgressEvent::HalfClosed { stream_id } => if !m.active.contains_key(stream_id) {
            (EgressAction::Ignore, m)
        } else if m.active[stream_id].local_closed {
            (EgressAction::ForwardHalfClose { removed: true }, without_stream(m, stream_id))
        } else {
            (
                EgressAction::ForwardHalfClose { removed: false },
                with_record(m, stream_id, StreamRecord { remote_closed: true, ..m.active[stream_id] }),
            )
        },
        EgressEvent::Failed { stream_id } => if m.active.contains_key(stream_id) {
            (EgressAction::Reset, without_stream(m, stream_id))
        } else {
            (EgressAction::Ignore, m)
        },
    }
}

impl StreamTable {
    /// Open and connecting identifiers are disjoint, and all are at most the
    /// highest identifier seen.
    pub closed spec fn wf(&self) -> bool {
        &&& self.streams@.dom().finite()
        &&& self.pending@.finite()
        &&& forall|id: u64| #[trigger] self.streams@.contains_key(id) ==> !self.pending@.contains(id)
            && id <= self.highest_stream_id
        &&& forall|id: u64| #[trigger] self.pending@.contains(id) ==> id <= self.highest_stream_id
    }

    proof fn lemma_wf_view(&self)
        requires
            self.wf(),
        ensures
            self@.active.dom().disjoint(self@.pending),
            forall|id: u64| #[trigger] self@.pending.contains(id) ==> id <= self@.highest,
            forall|id: u64| #[trigger] self@.active.contains_key(id) ==> id <= self@.highest,
    {
    }

    /// A well-formed table's model is consistent.
    pub proof fn lemma_consistent(&self)
        requires
            self.wf(),
        ensures
            model_consistent(self@),
    {
    }

    pub fn new() -> (table: Self)
        ensures
            table.wf(),
            table@.active == Map::<u64, StreamRecord>::empty(),
            table@.pending == Set::<u64>::empty(),
            table@.active_count == 0,
            table@.pending_count == 0,
            table@.highest == 0,
    {
        StreamTable { streams: HashMap::new(), pending: HashSet::new(), highest_stream_id: 0 }
    }

    /// The record of an open stream.
    fn record_of(&self, stream_id: u64) -> (record: Option<StreamRecord>)
        ensures
            record == if self@.active.contains_key(stream_id) {
                Some(self@.active[stream_id])
            } else {
                None::<StreamRecord>
            },
    {
        match self.streams.get(&stream_id) {
            Some(record) => Some(*record),
            None => None,
        }
    }

    /// Decides an open request. Malformed requests, identifiers that are not
    /// new odd numbers, bad ports or windows, a full table, and undecodable
    /// destinations are protocol violations. Otherwise the identifier becomes
    /// the highest seen; without the TCP capability the open is denied, and
    /// with it the stream starts connecting.
    pub fn on_open_request(
        &mut self,
        request: &OpenTcpRequest,
        limits: &LimitConfig,
        tcp_allowed: bool,
    ) -> (result: Result<OpenDecision, GatewayError>)
        requires
            old(self).wf(),
        ensures
            final(self).wf(),
            (result, final(self)@) == open_step(old(self)@, *request, *limits, tcp_allowed),
    {
        let count = self.streams.len().saturating_add(self.pending.len());
        if request.stream_id == 0 || request.stream_id % 2 == 0 || request.stream_id <= self.highest_stream_id
            || request.port == 0 || request.port > 65535 || request.initial_window == 0
            || request.initial_window as usize > limits.max_stream_window
            || count >= limits.max_streams_per_session {
            return Err(GatewayError::new(GatewayErrorCode::ProtocolViolation));
        }
        let destination = match decode_destination(request) {
            Ok(d) => d,
            Err(e) => return Err(e),
        };
        let stream_id = request.stream_id;
        self.highest_stream_id = stream_id;
        proof {
            assert(self.wf());
        }
        if !tcp_allowed {
            return Ok(OpenDecision::Deny { stream_id });
        }
        self.pending.insert(stream_id);
        proof {
            assert(self.wf()) by {
                assert forall|id: u64| #[trigger] self.streams@.contains_key(id) implies !self.pending@.contains(id)
                    && id <= self.highest_stream_id by {
                    assert(old(self).streams@.contains_key(id));
                }
                assert forall|id: u64| #[trigger] self.pending@.contains(id) implies id <= self.highest_stream_id by {
                    if id != stream_id {
                        assert(old(self).pending@.contains(id));
                    }
                }
            }
        }
        Ok(OpenDecision::Connect {
            stream_id,
            destination,
            port: request.port as u16,
            initial_window: request.initial_window as usize,
        })
    }

    /// Checks and debits a client data frame of `payload_len` bytes: an empty
    /// or oversized payload is `MessageTooLarge`; an unknown stream, one the
    /// client closed, or a payload beyond the stream's credit is a protocol
    /// violation. Otherwise the credit shrinks by the payload.
    pub fn on_data(&mut self, stream_id: u64, payload_len: usize, limits: &LimitConfig) -> (result: Result<(), GatewayError>)
        requires
            old(self).wf(),
        ensures
            final(self).wf(),
            (result, final(self)@) == data_step(old(self)@, stream_id, payload_len, *limits),
    {
        if payload_len == 0 || payload_len > limits.max_data_bytes {
            return Err(GatewayError::new(GatewayErrorCode::MessageTooLarge));
        }
        let record = match self.record_of(stream_id) {
            Some(record) => record,
            None => return Err(GatewayError::new(GatewayErrorCode::ProtocolViolation)),
        };
        if record.local_closed || payload_len > record.inbound_credit {
            return Err(GatewayError::new(GatewayErrorCode::ProtocolViolation));
        }
        let updated = StreamRecord { inbound_credit: record.inbound_credit - payload_len, ..record };
        self.put_record(stream_id, updated);
        Ok(())
    }

    fn put_record(&mut self, stream_id: u64, record: StreamRecord)
        requires
            old(self).wf(),
            old(self)@.active.contains_key(stream_id),
        ensures
            final(self).wf(),
            final(self)@ == (TableModel { active: old(self)@.active.insert(stream_id, record), ..old(self)@ }),
    {
        self.streams.insert(stream_id, record);
        proof {
            assert(self.streams@.dom() =~= old(self).streams@.dom());
            assert forall|id: u64| #[trigger] self.streams@.contains_key(id) implies !self.pending@.contains(id)
                && id <= self.highest_stream_id by {
                assert(old(self).streams@.contains_key(id));
            }
        }
    }

    fn drop_record(&mut self, stream_id: u64)
        requires
            old(self).wf(),
            old(self)@.active.contains_key(stream_id),
        ensures
            final(self).wf(),
            final(self)@ == (TableModel {
                active: old(self)@.active.remove(stream_id),
                active_count: (old(self)@.active_count - 1) as nat,
                ..old(self)@
            }),
    {
        self.streams.remove(&stream_id);
        proof {
            assert(self.streams@.dom() =~= old(self).streams@.dom().remove(stream_id));
            assert forall|id: u64| #[trigger] self.streams@.contains_key(id) implies !self.pending@.contains(id)
                && id <= self.highest_stream_id by {
                assert(old(self).streams@.contains_key(id));
            }
        }
    }

    /// After the payload of an accepted data frame was written, or failed to
    /// be: a write returns the credit (a protocol violation should it
    /// overflow) and is acknowledged; a failure removes the stream, which is
    /// then reset.
    pub fn on_data_written(&mut self, stream_id: u64, payload_len: usize, written: bool) -> (result: Result<DataOutcome, GatewayError>)
        requires
            old(self).wf(),
            old(self)@.active.contains_key(stream_id),
        ensures
            final(self).wf(),
            ({
                let record = old(self)@.active[stream_id];
                if !written {
                    &&& result == Ok::<DataOutcome, GatewayError>(DataOutcome::Reset)
                    &&& final(self)@ == (TableModel {
                        active: old(self)@.active.remove(stream_id),
                        active_count: (old(self)@.active_count - 1) as nat,
                        ..old(self)@
                    })
                } else if record.inbound_credit + payload_len > usize::MAX {
                    result == Err::<DataOutcome, GatewayError>(protocol_violation()) && final(self)@ == old(self)@
                } else {
                    &&& result == Ok::<DataOutcome, GatewayError>(DataOutcome::Acknowledge)
                    &&& final(self)@ == (TableModel {
                        active: old(self)@.active.insert(
                            stream_id,
                            StreamRecord { inbound_credit: (record.inbound_credit + payload_len) as usize, ..record },
                        ),
                        ..old(self)@
                    })
                }
            }),
    {
        let record = match self.record_of(stream_id) {
            Some(record) => record,
            None => {
                return Err(GatewayError::new(GatewayErrorCode::ProtocolViolation));
            },
        };
        if !written {
            self.drop_record(stream_id);
            return Ok(DataOutcome::Reset);
        }
        match record.inbound_credit.checked_add(payload_len) {
            Some(credit) => {
                self.put_record(stream_id, StreamRecord { inbound_credit: credit, ..record });
                Ok(DataOutcome::Acknowledge)
            },
            None => Err(GatewayError::new(GatewayErrorCode::ProtocolViolation)),
        }
    }

    /// Checks a window update: zero credit or an unknown stream is a protocol
    /// violation. The credit itself is granted to the stream's outbound
    /// `FlowCredit`.
    pub fn on_window_update(&self, update: &WindowUpdate) -> (result: Result<(), GatewayError>)
        requires
            self.wf(),
        ensures
            result is Ok <==> update.credit != 0 && self@.active.contains_key(update.stream_id),
            result matches Err(e) ==> e == protocol_violation(),
    {
        if update.credit == 0 {
            return Err(GatewayError::new(GatewayErrorCode::ProtocolViolation));
        }
        match self.record_of(update.stream_id) {
            Some(_) => Ok(()),
            None => Err(GatewayError::new(GatewayErrorCode::ProtocolViolation)),
        }
    }

    /// Checks a client half-close: the stream must be open and not already
    /// closed by the client.
    pub fn begin_half_close(&self, stream_id: u64) -> (result: Result<(), GatewayError>)
        requires
            self.wf(),
        ensures
            result is Ok <==> self@.active.contains_key(stream_id) && !self@.active[stream_id].local_closed,
            result matches Err(e) ==> e == protocol_violation(),
    {
        match self.record_of(stream_id) {
            Some(record) => {
                if record.local_closed {
                    Err(GatewayError::new(GatewayErrorCode::ProtocolViolation))
                } else {
                    Ok(())
                }
            },
            None => Err(GatewayError::new(GatewayErrorCode::ProtocolViolation)),
        }
    }

    /// Records that the egress side was shut down for writing. When the egress
    /// side had already closed too, the stream is removed and `true` returned.
    pub fn finish_half_close(&mut self, stream_id: u64) -> (removed: bool)
        requires
            old(self).wf(),
            old(self)@.active.contains_key(stream_id),
        ensures
            final(self).wf(),
            removed == old(self)@.active[stream_id].remote_closed,
            removed ==> final(self)@ == (TableModel {
                active: old(self)@.active.remove(stream_id),
                active_count: (old(self)@.active_count - 1) as nat,
                ..old(self)@
            }),
            !removed ==> final(self)@ == (TableModel {
                active: old(self)@.active.insert(
                    stream_id,
                    StreamRecord { local_closed: true, ..old(self)@.active[stream_id] },
                ),
                ..old(self)@
            }),
    {
        let record = match self.record_of(stream_id) {
            Some(record) => record,
            None => {
                return false;
            },
        };
        if record.remote_closed {
            self.drop_record(stream_id);
            true
        } else {
            self.put_record(stream_id, StreamRecord { local_closed: true, ..record });
            false
        }
    }

    /// Removes a stream the client reset; an unknown stream is a protocol
    /// violation.
    pub fn on_reset(&mut self, stream_id: u64) -> (result: Result<(), GatewayError>)
        requires
            old(self).wf(),
        ensures
            final(self).wf(),
            (result, final(self)@) == reset_step(old(self)@, stream_id),
    {
        match self.record_of(stream_id) {
            Some(_) => {
                self.drop_record(stream_id);
                Ok(())
            },
            None => Err(GatewayError::new(GatewayErrorCode::ProtocolViolation)),
        }
    }

    /// Removes a connecting stream; returns whether it was connecting.
    fn take_pending(&mut self, stream_id: u64) -> (was_pending: bool)
        requires
            old(self).wf(),
        ensures
            final(self).wf(),
            was_pending == old(self)@.pending.contains(stream_id),
            !was_pending ==> final(self)@ == old(self)@,
            final(self)@ == (TableModel {
                pending: old(self)@.pending.remove(stream_id),
                pending_count: if was_pending {
                    (old(self)@.pending_count - 1) as nat
                } else {
                    old(self)@.pending_count
                },
                ..old(self)@
            }),
    {
        let was_pending = self.pending.remove(&stream_id);
        proof {
            if was_pending {
                assert(self@.pending.len() == old(self)@.pending.len() - 1);
            } else {
                assert(old(self)@.pending.remove(stream_id) =~= old(self)@.pending);
            }
            assert(self.wf()) by {
                assert forall|id: u64| #[trigger] self.pending@.contains(id) implies id <= self.highest_stream_id by {
                    assert(old(self).pending@.contains(id));
                }
            }
        }
        was_pending
    }

    /// Applies an egress event: a finished connection attempt moves a
    /// connecting stream to open (with the configured initial inbound credit)
    /// or drops it; data is forwarded for open streams; an egress half-close
    /// is recorded and forwarded, removing the stream once both sides are
    /// closed; a failure removes and resets the stream. Events for unknown
    /// streams are ignored.
    pub fn on_egress_event(&mut self, event: EgressEvent, limits: &LimitConfig) -> (action: EgressAction)
        requires
            old(self).wf(),
        ensures
            final(self).wf(),
            (action, final(self)@) == egress_step(old(self)@, event, *limits),
    {
        match event {
            EgressEvent::Opened { stream_id, connected } => {
                if !self.take_pending(stream_id) {
                    return EgressAction::Ignore;
                }
                if !connected {
                    return EgressAction::OpenFailed;
                }
                let record = StreamRecord {
                    inbound_credit: limits.initial_stream_window,
                    local_closed: false,
                    remote_closed: false,
                };
                let ghost before = self.streams@;
                proof {
                    assert(old(self).pending@.contains(stream_id));
                    assert(!before.contains_key(stream_id));
                }
                self.streams.insert(stream_id, record);
                proof {
                    assert(self.streams@.dom() =~= before.dom().insert(stream_id));
                    assert forall|id: u64| #[trigger] self.streams@.contains_key(id) implies !self.pending@.contains(id)
                        && id <= self.highest_stream_id by {
                        if id != stream_id {
                            assert(before.contains_key(id));
                        }
                    }
                }
                EgressAction::Opened
            },
            EgressEvent::Data { stream_id } => {
                match self.record_of(stream_id) {
                    Some(_) => EgressAction::ForwardData,
                    None => EgressAction::Ignore,
                }
            },
            EgressEvent::HalfClosed { stream_id } => {
                let record = match self.record_of(stream_id) {
                    Some(record) => record,
                    None => {
                        return EgressAction::Ignore;
                    },
                };
                if record.local_closed {
                    self.drop_record(stream_id);
                    EgressAction::ForwardHalfClose { removed: true }
                } else {
                    self.put_record(stream_id, StreamRecord { remote_closed: true, ..record });
                    EgressAction::ForwardHalfClose { removed: false }
                }
            },
            EgressEvent::Failed { stream_id } => {
                match self.record_of(stream_id) {
                    Some(_) => {
                        self.drop_record(stream_id);
                        EgressAction::Reset
                    },
                    None => EgressAction::Ignore,
                }
            },
        }
    }

    /// Decides one client frame body in an authenticated session: opens,
    /// data, window updates, half-closes, resets, DNS queries and pings act on
    /// the table or answer; a GoAway ends the session as expired; any other
    /// body is a protocol violation.
    pub fn on_client_body(
        &mut self,
        body: &Body,
        limits: &LimitConfig,
        tcp_allowed: bool,
        dns_allowed: bool,
    ) -> (result: Result<ClientAction, GatewayError>)
        requires
            old(self).wf(),
        ensures
            final(self).wf(),
            (result, final(self)@) == client_step(old(self)@, *body, *limits, tcp_allowed, dns_allowed),
    {
        match body {
            Body::OpenTcpRequest(request) => match self.on_open_request(request, limits, tcp_allowed) {
                Ok(decision) => Ok(ClientAction::Open(decision)),
                Err(e) => Err(e),
            },
            Body::Data(data) => match self.on_data(data.stream_id, data.payload.len(), limits) {
                Ok(()) => Ok(ClientAction::WriteData { stream_id: data.stream_id }),
                Err(e) => Err(e),
            },
            Body::WindowUpdate(update) => match self.on_window_update(update) {
                Ok(()) => Ok(ClientAction::GrantOutbound { stream_id: update.stream_id, credit: update.credit }),
                Err(e) => Err(e),
            },
            Body::HalfClose(close) => match self.begin_half_close(close.stream_id) {
                Ok(()) => Ok(ClientAction::ShutdownWrite { stream_id: close.stream_id }),
                Err(e) => Err(e),
            },
            Body::ResetStream(reset) => match self.on_reset(reset.stream_id) {
                Ok(()) => Ok(ClientAction::Abort { stream_id: reset.stream_id }),
                Err(e) => Err(e),
            },
            Body::DnsQuery(query) => match check_dns_query(query, dns_allowed) {
                Ok(()) => Ok(ClientAction::Resolve),
                Err(e) => Err(e),
            },
            Body::Ping(ping) => match check_ping(ping) {
                Ok(()) => Ok(ClientAction::Pong),
                Err(e) => Err(e),
            },
            Body::GoAway(_) => Err(GatewayError::new(GatewayErrorCode::SessionExpired)),
            _ => Err(GatewayError::new(GatewayErrorCode::ProtocolViolation)),
        }
    }
}

/// The outbound credit of one stream: how many bytes the daemon may still read
/// from the egress side for the client. The client's window updates add to
/// it, never beyond the maximum; the egress reader takes from it before each
/// read and returns what it did not use.
pub struct FlowCredit {
    outstanding: usize,
    maximum: usize,
}

impl FlowCredit {
    pub closed spec fn outstanding_spec(&self) -> usize {
        self.outstanding
    }

    pub closed spec fn maximum_spec(&self) -> usize {
        self.maximum
    }

    pub fn new(initial: usize, maximum: usize) -> (credit: Self)
        ensures
            credit.outstanding_spec() == initial,
            credit.maximum_spec() == maximum,
    {
        FlowCredit { outstanding: initial, maximum }
    }

    pub fn outstanding(&self) -> (amount: usize)
        ensures
            amount == self.outstanding_spec(),
    {
        self.outstanding
    }

    /// Adds a window update's credit; going past the maximum (or overflowing)
    /// is a protocol violation and changes nothing.
    pub fn grant(&mut self, amount: usize) -> (result: Result<(), GatewayError>)
        ensures
            final(self).maximum_spec() == old(self).maximum_spec(),
            result is Ok <==> old(self).outstanding_spec() + amount <= old(self).maximum_spec(),
            result is Ok ==> final(self).outstanding_spec() == old(self).outstanding_spec() + amount,
            result matches Err(e) ==> e == protocol_violation() && final(self).outstanding_spec()
                == old(self).outstanding_spec(),
    {
        match self.outstanding.checked_add(amount) {
            Some(next) => {
                if next <= self.maximum {
                    self.outstanding = next;
                    Ok(())
                } else {
                    Err(GatewayError::new(GatewayErrorCode::ProtocolViolation))
                }
            },
            None => Err(GatewayError::new(GatewayErrorCode::ProtocolViolation)),
        }
    }

    /// How much the egress reader asks for: all the credit, at least one
    /// byte, at most `maximum`.
    pub fn request_size(&self, maximum: usize) -> (amount: usize)
        ensures
            amount == if self.outstanding_spec() >= 1 {
                if self.outstanding_spec() <= maximum { self.outstanding_spec() } else { maximum }
            } else {
                if 1 <= maximum { 1 } else { maximum }
            },
    {
        let available = if self.outstanding >= 1 { self.outstanding } else { 1 };
        if available <= maximum { available } else { maximum }
    }

    /// Takes `amount` of credit when that much is there; otherwise the
    /// reader waits for a window update.
    pub fn take(&mut self, amount: usize) -> (taken: bool)
        ensures
            final(self).maximum_spec() == old(self).maximum_spec(),
            taken == (amount <= old(self).outstanding_spec()),
            taken ==> final(self).outstanding_spec() == old(self).outstanding_spec() - amount,
            !taken ==> final(self).outstanding_spec() == old(self).outstanding_spec(),
    {
        if amount <= self.outstanding {
            self.outstanding = self.outstanding - amount;
            true
        } else {
            false
        }
    }

    /// Returns credit the reader took but did not use.
    pub fn restore(&mut self, amount: usize)
        ensures
            final(self).maximum_spec() == old(self).maximum_spec(),
            final(self).outstanding_spec() == old(self).outstanding_spec().wrapping_add(amount),
    {
        self.outstanding = self.outstanding.wrapping_add(amount);
    }
}

/// A session never holds more open and connecting streams than
/// `max_streams_per_session`: no client frame and no egress event takes the
/// count past the limit.
pub proof fn lemma_stream_count_bounded(
    m: TableModel,
    body: Body,
    event: EgressEvent,
    limits: LimitConfig,
    tcp_allowed: bool,
    dns_allowed: bool,
)
    requires
        model_consistent(m),
        m.active_count + m.pending_count <= limits.max_streams_per_session,
    ensures
        ({
            let next = client_step(m, body, limits, tcp_allowed, dns_allowed).1;
            next.active_count + next.pending_count <= limits.max_streams_per_session
        }),
        ({
            let next = egress_step(m, event, limits).1;
            next.active_count + next.pending_count <= limits.max_streams_per_session
        }),
{
    let id = match body {
        Body::Data(d) => d.stream_id,
        Body::ResetStream(r) => r.stream_id,
        _ => 0,
    };
    if m.active.contains_key(id) {
        assert(m.active.dom().contains(id));
        vstd::set_lib::lemma_set_empty_equivalency_len(m.active.dom());
    }
    let eid = match event {
        EgressEvent::Opened { stream_id, .. } => stream_id,
        EgressEvent::Data { stream_id } => stream_id,
        EgressEvent::HalfClosed { stream_id } => stream_id,
        EgressEvent::Failed { stream_id } => stream_id,
    };
    if m.active.contains_key(eid) {
        assert(m.active.dom().contains(eid));
        vstd::set_lib::lemma_set_empty_equivalency_len(m.active.dom());
    }
    if m.pending.contains(eid) {
        vstd::set_lib::lemma_set_empty_equivalency_len(m.pending);
    }
}

/// A stream identifier is used once: after an open request is accepted or
/// denied, any open request with an identifier at most as large is refused
/// as a protocol violation.
pub proof fn lemma_stream_ids_not_reused(
    m: TableModel,
    first: OpenTcpRequest,
    second: OpenTcpRequest,
    limits: LimitConfig,
    tcp_allowed: bool,
    later_tcp_allowed: bool,
)
    requires
        open_step(m, first, limits, tcp_allowed).0 is Ok,
        second.stream_id <= first.stream_id,
    ensures
        open_step(open_step(m, first, limits, tcp_allowed).1, second, limits, later_tcp_allowed).0
            == Err::<OpenDecision, GatewayError>(protocol_violation()),
{
}

} // verus!
