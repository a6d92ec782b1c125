//! Connection and per-stream flow-control credit. All arithmetic is checked and
//! bounded; the ledger never stores payload bytes. Activity times are
//! milliseconds on a monotonic clock supplied by the caller.
use std::collections::BTreeMap;
use vstd::prelude::*;
use vstd::std_specs::cmp::OrdSpec;
use vstd::std_specs::iter::IteratorSpec;

use crate::gateway::error::ProtocolError;
use crate::gateway::limits::{MAX_CONNECTION_WINDOW, MAX_STREAM_WINDOW};
use crate::gateway::validation::{stream_id_is_valid, validate_stream_id};

verus! {

broadcast use vstd::std_specs::btree::group_btree_axioms;

#[derive(Clone, Copy, Debug, PartialEq, Eq, Structural)]
pub enum StreamPhase {
    OpeningLocal,
    OpeningRemote,
    Open,
}

/// The state of one logical stream.
#[derive(Clone, Copy, Debug)]
pub struct StreamState {
    phase: StreamPhase,
    send_window: u64,
    receive_window: u64,
    local_half_closed: bool,
    remote_half_closed: bool,
    last_activity_ms: u64,
}

/// The abstract value of a `StreamState`.
pub struct StreamView {
    pub phase: StreamPhase,
    pub send_window: u64,
    pub receive_window: u64,
    pub local_half_closed: bool,
    pub remote_half_closed: bool,
    pub last_activity_ms: u64,
}

impl View for StreamState {
    type V = StreamView;

    closed spec fn view(&self) -> StreamView {
        StreamView {
            phase: self.phase,
            send_window: self.send_window,
            receive_window: self.receive_window,
            local_half_closed: self.local_half_closed,
            remote_half_closed: self.remote_half_closed,
            last_activity_ms: self.last_activity_ms,
        }
    }
}

impl StreamState {
    pub fn phase(&self) -> (phase: StreamPhase)
        ensures
            phase == self@.phase,
    {
        self.phase
    }

    pub fn send_window(&self) -> (window: u64)
        ensures
            window == self@.send_window,
    {
        self.send_window
    }

    pub fn receive_window(&self) -> (window: u64)
        ensures
            window == self@.receive_window,
    {
        self.receive_window
    }

    pub fn local_half_closed(&self) -> (closed: bool)
        ensures
            closed == self@.local_half_closed,
    {
        self.local_half_closed
    }

    pub fn remote_half_closed(&self) -> (closed: bool)
        ensures
            closed == self@.remote_half_closed,
    {
        self.remote_half_closed
    }

    /// Milliseconds on the caller's monotonic clock of the last activity.
    pub fn last_activity_ms(&self) -> (at: u64)
        ensures
            at == self@.last_activity_ms,
    {
        self.last_activity_ms
    }
}

/// Whether a stream last active at `last_activity_ms` has been idle for at
/// least `timeout_ms` at time `now_ms`.
pub open spec fn is_idle(last_activity_ms: u64, now_ms: u64, timeout_ms: u64) -> bool {
    now_ms >= last_activity_ms && now_ms - last_activity_ms >= timeout_ms
}

/// Credit ledger for the connection and per-stream windows, with the streams
/// by ID. It never stores payload bytes.
#[derive(Debug)]
pub struct FlowController {
    connection_send_window: u64,
    connection_receive_window: u64,
    maximum_concurrent_streams: usize,
    maximum_seen_stream_id: u64,
    streams: BTreeMap<u64, StreamState>,
}

impl FlowController {
    /// Credit the peer granted for sending on the connection.
    pub closed spec fn connection_send(&self) -> u64 {
        self.connection_send_window
    }

    /// Credit this side grants the peer on the connection.
    pub closed spec fn connection_receive(&self) -> u64 {
        self.connection_receive_window
    }

    /// The maximum number of concurrent streams.
    pub closed spec fn stream_limit(&self) -> usize {
        self.maximum_concurrent_streams
    }

    /// The highest stream ID ever opened, or 0.
    pub closed spec fn highest_stream_id(&self) -> u64 {
        self.maximum_seen_stream_id
    }

    /// The live streams by ID.
    pub closed spec fn streams(&self) -> Map<u64, StreamView> {
        self.streams@.map_values(|state: StreamState| state@)
    }

    pub closed spec fn wf(&self) -> bool {
        &&& 1 <= self.maximum_concurrent_streams
        &&& self.streams@.dom().finite()
        &&& self.streams@.len() <= self.maximum_concurrent_streams
        &&& self.connection_send_window <= MAX_CONNECTION_WINDOW
        &&& self.connection_receive_window <= MAX_CONNECTION_WINDOW
        &&& forall|id: u64|
            #[trigger] self.streams@.contains_key(id) ==> {
                &&& stream_id_is_valid(id)
                &&& id <= self.maximum_seen_stream_id
                &&& self.streams@[id].send_window <= MAX_STREAM_WINDOW
                &&& self.streams@[id].receive_window <= MAX_STREAM_WINDOW
            }
    }

    /// Every state keeps the windows within their hard maximums, and every live
    /// stream has a valid ID no higher than the highest ID opened so far.
    pub proof fn lemma_bounded(&self)
        requires
            self.wf(),
        ensures
            self.connection_send() <= MAX_CONNECTION_WINDOW,
            self.connection_receive() <= MAX_CONNECTION_WINDOW,
            self.streams().dom().finite(),
            self.streams().len() <= self.stream_limit(),
            forall|id: u64| #[trigger]
                self.streams().contains_key(id) ==> {
                    &&& stream_id_is_valid(id)
                    &&& id <= self.highest_stream_id()
                    &&& self.streams()[id].send_window <= MAX_STREAM_WINDOW
                    &&& self.streams()[id].receive_window <= MAX_STREAM_WINDOW
                },
    {
        assert(self.streams().dom() =~= self.streams@.dom());
    }

    /// The state of a live stream.
    fn lookup(&self, stream_id: u64) -> (found: Option<StreamState>)
        ensures
            match found {
                Some(state) => self.streams@.contains_key(stream_id) && state == self.streams@[stream_id],
                None => !self.streams@.contains_key(stream_id),
            },
    {
        match self.streams.get(&stream_id) {
            Some(state) => Some(*state),
            None => None,
        }
    }
}

/// A stream's state when it is first recorded.
pub open spec fn fresh_stream(
    phase: StreamPhase,
    send_window: u32,
    receive_window: u32,
    now_ms: u64,
) -> StreamView {
    StreamView {
        phase,
        send_window: send_window as u64,
        receive_window: receive_window as u64,
        local_half_closed: false,
        remote_half_closed: false,
        last_activity_ms: now_ms,
    }
}

/// Whether `flow_controller_limits` accepts these arguments.
pub open spec fn flow_limits_valid(
    peer_connection_receive_window: u32,
    local_connection_receive_window: u32,
    maximum_concurrent_streams: usize,
) -> bool {
    &&& peer_connection_receive_window != 0
    &&& local_connection_receive_window != 0
    &&& peer_connection_receive_window <= MAX_CONNECTION_WINDOW
    &&& local_connection_receive_window <= MAX_CONNECTION_WINDOW
    &&& maximum_concurrent_streams != 0
}

/// A stream window announced by a peer or chosen locally: non-zero and within
/// the hard maximum.
pub open spec fn window_valid(window: u32) -> bool {
    window != 0 && window <= MAX_STREAM_WINDOW
}

fn validate_window(window: u32) -> (result: Result<(), ProtocolError>)
    ensures
        result is Ok <==> window_valid(window),
        result is Err ==> result == Err::<(), ProtocolError>(
            ProtocolError::InvalidField("stream_window"),
        ),
{
    if window == 0 || window as u64 > MAX_STREAM_WINDOW {
        return Err(ProtocolError::InvalidField("stream_window"));
    }
    Ok(())
}

/// `current + credit`, refused above `maximum`.
fn checked_credit_add(current: u64, credit: u64, maximum: u64) -> (result: Result<
    u64,
    ProtocolError,
>)
    ensures
        match result {
            Ok(updated) => current + credit <= maximum && updated == current + credit,
            Err(e) => if current + credit > u64::MAX {
                e == ProtocolError::IntegerOverflow
            } else {
                current + credit > maximum && e == ProtocolError::FlowControlViolation
            },
        },
{
    let updated = match current.checked_add(credit) {
        Some(updated) => updated,
        None => return Err(ProtocolError::IntegerOverflow),
    };
    if updated > maximum {
        return Err(ProtocolError::FlowControlViolation);
    }
    Ok(updated)
}

impl FlowController {
    /// `after` has everything of `self` but the states of the streams, which
    /// are those of `self` with `stream_id` mapped to `state`.
    pub open spec fn with_stream(&self, after: Self, stream_id: u64, state: StreamView) -> bool {
        &&& after.streams() == self.streams().insert(stream_id, state)
        &&& after.highest_stream_id() == self.highest_stream_id()
        &&& after.stream_limit() == self.stream_limit()
    }

    /// The stream is not there to act on.
    pub open spec fn lookup_fails(&self, stream_id: u64) -> bool {
        !stream_id_is_valid(stream_id) || !self.streams().contains_key(stream_id)
    }

    /// The outcome of recording a new stream with these windows.
    pub open spec fn open_result(&self, stream_id: u64, send_window: u32, receive_window: u32) -> Result<
        (),
        ProtocolError,
    > {
        if !stream_id_is_valid(stream_id) || stream_id <= self.highest_stream_id()
            || self.streams().contains_key(stream_id) {
            Err(ProtocolError::InvalidStreamId)
        } else if self.streams().len() >= self.stream_limit() {
            Err(ProtocolError::StreamLimit)
        } else if send_window != 0 && !window_valid(send_window) {
            Err(ProtocolError::InvalidField("stream_window"))
        } else if receive_window != 0 && !window_valid(receive_window) {
            Err(ProtocolError::InvalidField("stream_window"))
        } else {
            Ok(())
        }
    }

    /// `after` is `self` with one new stream recorded.
    pub open spec fn opened(&self, after: Self, stream_id: u64, state: StreamView) -> bool {
        &&& after.streams() == self.streams().insert(stream_id, state)
        &&& after.highest_stream_id() == stream_id
        &&& after.stream_limit() == self.stream_limit()
        &&& after.connection_send() == self.connection_send()
        &&& after.connection_receive() == self.connection_receive()
    }

    pub fn new(
        peer_connection_receive_window: u32,
        local_connection_receive_window: u32,
        maximum_concurrent_streams: usize,
    ) -> (result: Result<Self, ProtocolError>)
        ensures
            match result {
                Ok(flow) => {
                    &&& flow_limits_valid(
                        peer_connection_receive_window,
                        local_connection_receive_window,
                        maximum_concurrent_streams,
                    )
                    &&& flow.wf()
                    &&& flow.connection_send() == peer_connection_receive_window
                    &&& flow.connection_receive() == local_connection_receive_window
                    &&& flow.stream_limit() == maximum_concurrent_streams
                    &&& flow.highest_stream_id() == 0
                    &&& flow.streams() == Map::<u64, StreamView>::empty()
                },
                Err(e) => !flow_limits_valid(
                    peer_connection_receive_window,
                    local_connection_receive_window,
                    maximum_concurrent_streams,
                ) && e == ProtocolError::InvalidField("flow_controller_limits"),
            },
    {
        if peer_connection_receive_window == 0 || local_connection_receive_window == 0
            || peer_connection_receive_window as u64 > MAX_CONNECTION_WINDOW
            || local_connection_receive_window as u64 > MAX_CONNECTION_WINDOW
            || maximum_concurrent_streams == 0 {
            return Err(ProtocolError::InvalidField("flow_controller_limits"));
        }
        let flow = FlowController {
            connection_send_window: peer_connection_receive_window as u64,
            connection_receive_window: local_connection_receive_window as u64,
            maximum_concurrent_streams,
            maximum_seen_stream_id: 0,
            streams: BTreeMap::new(),
        };
        proof {
            assert(flow.streams() =~= Map::<u64, StreamView>::empty());
        }
        Ok(flow)
    }

    pub fn stream_count(&self) -> (count: usize)
        requires
            self.wf(),
        ensures
            count == self.streams().len(),
    {
        proof {
            assert(self.streams().dom() =~= self.streams@.dom());
        }
        self.streams.len()
    }

    pub fn maximum_seen_stream_id(&self) -> (id: u64)
        ensures
            id == self.highest_stream_id(),
    {
        self.maximum_seen_stream_id
    }

    pub fn stream(&self, stream_id: u64) -> (found: Option<&StreamState>)
        requires
            self.wf(),
        ensures
            match found {
                Some(state) => self.streams().contains_key(stream_id) && state@
                    == self.streams()[stream_id],
                None => !self.streams().contains_key(stream_id),
            },
    {
        self.streams.get(&stream_id)
    }

    pub fn open_local(&mut self, stream_id: u64, local_receive_window: u32, now_ms: u64) -> (result:
        Result<(), ProtocolError>)
        requires
            old(self).wf(),
        ensures
            final(self).wf(),
            result == old(self).open_result(stream_id, 0, local_receive_window),
            result is Ok ==> old(self).opened(
                *final(self),
                stream_id,
                fresh_stream(StreamPhase::OpeningLocal, 0, local_receive_window, now_ms),
            ),
            result is Err ==> *final(self) == *old(self),
    {
        self.insert_new_stream(stream_id, StreamPhase::OpeningLocal, 0, local_receive_window, now_ms)
    }

    pub fn receive_open(&mut self, stream_id: u64, peer_receive_window: u32, now_ms: u64) -> (result:
        Result<(), ProtocolError>)
        requires
            old(self).wf(),
        ensures
            final(self).wf(),
            result == old(self).open_result(stream_id, peer_receive_window, 0),
            result is Ok ==> old(self).opened(
                *final(self),
                stream_id,
                fresh_stream(StreamPhase::OpeningRemote, peer_receive_window, 0, now_ms),
            ),
            result is Err ==> *final(self) == *old(self),
    {
        self.insert_new_stream(stream_id, StreamPhase::OpeningRemote, peer_receive_window, 0, now_ms)
    }

    fn insert_new_stream(
        &mut self,
        stream_id: u64,
        phase: StreamPhase,
        send_window: u32,
        receive_window: u32,
        now_ms: u64,
    ) -> (result: Result<(), ProtocolError>)
        requires
            old(self).wf(),
        ensures
            final(self).wf(),
            result == old(self).open_result(stream_id, send_window, receive_window),
            result is Ok ==> old(self).opened(
                *final(self),
                stream_id,
                fresh_stream(phase, send_window, receive_window, now_ms),
            ),
            result is Err ==> *final(self) == *old(self),
    {
        proof {
            self.lemma_bounded();
            assert(self.streams().dom() =~= self.streams@.dom());
        }
        validate_stream_id(stream_id)?;
        if stream_id <= self.maximum_seen_stream_id || self.streams.contains_key(&stream_id) {
            return Err(ProtocolError::InvalidStreamId);
        }
        if self.streams.len() >= self.maximum_concurrent_streams {
            return Err(ProtocolError::StreamLimit);
        }
        if send_window != 0 {
            validate_window(send_window)?;
        }
        if receive_window != 0 {
            validate_window(receive_window)?;
        }
        let state = StreamState {
            phase,
            send_window: send_window as u64,
            receive_window: receive_window as u64,
            local_half_closed: false,
            remote_half_closed: false,
            last_activity_ms: now_ms,
        };
        self.maximum_seen_stream_id = stream_id;
        self.streams.insert(stream_id, state);
        proof {
            assert(self.streams@.dom() =~= old(self).streams@.dom().insert(stream_id));
            assert(self.streams() =~= old(self).streams().insert(stream_id, state@));
            assert forall|id: u64| #[trigger] self.streams@.contains_key(id) implies {
                &&& stream_id_is_valid(id)
                &&& id <= self.maximum_seen_stream_id
                &&& self.streams@[id].send_window <= MAX_STREAM_WINDOW
                &&& self.streams@[id].receive_window <= MAX_STREAM_WINDOW
            } by {
                if id != stream_id {
                    assert(old(self).streams@.contains_key(id));
                }
            }
        }
        Ok(())
    }
}


impl FlowController {
    /// The outcome of `confirm_local_open`.
    pub open spec fn confirm_local_open_result(&self, stream_id: u64, peer_receive_window: u32) -> Result<
        (),
        ProtocolError,
    > {
        if !window_valid(peer_receive_window) {
            Err(ProtocolError::InvalidField("stream_window"))
        } else if self.lookup_fails(stream_id) {
            Err(ProtocolError::InvalidStreamId)
        } else if self.streams()[stream_id].phase != StreamPhase::OpeningLocal {
            Err(ProtocolError::ProtocolViolation("unexpected stream-open response"))
        } else {
            Ok(())
        }
    }

    /// The outcome of `accept_remote_open`.
    pub open spec fn accept_remote_open_result(&self, stream_id: u64, local_receive_window: u32) -> Result<
        (),
        ProtocolError,
    > {
        if !window_valid(local_receive_window) {
            Err(ProtocolError::InvalidField("stream_window"))
        } else if self.lookup_fails(stream_id) {
            Err(ProtocolError::InvalidStreamId)
        } else if self.streams()[stream_id].phase != StreamPhase::OpeningRemote {
            Err(ProtocolError::ProtocolViolation("unexpected stream acceptance"))
        } else {
            Ok(())
        }
    }

    /// The state of a valid, live stream.
    fn locate(&self, stream_id: u64) -> (result: Result<StreamState, ProtocolError>)
        requires
            self.wf(),
        ensures
            match result {
                Ok(state) => !self.lookup_fails(stream_id) && self.streams@.contains_key(stream_id)
                    && state == self.streams@[stream_id] && state@ == self.streams()[stream_id],
                Err(e) => self.lookup_fails(stream_id) && e == ProtocolError::InvalidStreamId,
            },
    {
        validate_stream_id(stream_id)?;
        match self.lookup(stream_id) {
            Some(state) => Ok(state),
            None => Err(ProtocolError::InvalidStreamId),
        }
    }

    /// Replaces the state of a live stream.
    fn replace(&mut self, stream_id: u64, state: StreamState)
        requires
            old(self).wf(),
            old(self).streams@.contains_key(stream_id),
            state.send_window <= MAX_STREAM_WINDOW,
            state.receive_window <= MAX_STREAM_WINDOW,
        ensures
            final(self).wf(),
            old(self).with_stream(*final(self), stream_id, state@),
            final(self).connection_send() == old(self).connection_send(),
            final(self).connection_receive() == old(self).connection_receive(),
    {
        self.streams.insert(stream_id, state);
        proof {
            assert(self.streams@.dom() =~= old(self).streams@.dom());
            assert(self.streams() =~= old(self).streams().insert(stream_id, state@));
            assert forall|id: u64| #[trigger] self.streams@.contains_key(id) implies {
                &&& stream_id_is_valid(id)
                &&& id <= self.maximum_seen_stream_id
                &&& self.streams@[id].send_window <= MAX_STREAM_WINDOW
                &&& self.streams@[id].receive_window <= MAX_STREAM_WINDOW
            } by {
                if id != stream_id {
                    assert(old(self).streams@.contains_key(id));
                }
            }
        }
    }

    pub fn confirm_local_open(&mut self, stream_id: u64, peer_receive_window: u32, now_ms: u64) -> (result:
        Result<(), ProtocolError>)
        requires
            old(self).wf(),
        ensures
            final(self).wf(),
            result == old(self).confirm_local_open_result(stream_id, peer_receive_window),
            result is Ok ==> old(self).with_stream(
                *final(self),
                stream_id,
                StreamView {
                    phase: StreamPhase::Open,
                    send_window: peer_receive_window as u64,
                    last_activity_ms: now_ms,
                    ..old(self).streams()[stream_id]
                },
            ) && final(self).connection_send() == old(self).connection_send()
                && final(self).connection_receive() == old(self).connection_receive(),
            result is Err ==> *final(self) == *old(self),
    {
        validate_window(peer_receive_window)?;
        let mut state = self.locate(stream_id)?;
        if state.phase != StreamPhase::OpeningLocal {
            return Err(ProtocolError::ProtocolViolation("unexpected stream-open response"));
        }
        state.phase = StreamPhase::Open;
        state.send_window = peer_receive_window as u64;
        state.last_activity_ms = now_ms;
        self.replace(stream_id, state);
        Ok(())
    }

    pub fn accept_remote_open(&mut self, stream_id: u64, local_receive_window: u32, now_ms: u64) -> (result:
        Result<(), ProtocolError>)
        requires
            old(self).wf(),
        ensures
            final(self).wf(),
            result == old(self).accept_remote_open_result(stream_id, local_receive_window),
            result is Ok ==> old(self).with_stream(
                *final(self),
                stream_id,
                StreamView {
                    phase: StreamPhase::Open,
                    receive_window: local_receive_window as u64,
                    last_activity_ms: now_ms,
                    ..old(self).streams()[stream_id]
                },
            ) && final(self).connection_send() == old(self).connection_send()
                && final(self).connection_receive() == old(self).connection_receive(),
            result is Err ==> *final(self) == *old(self),
    {
        validate_window(local_receive_window)?;
        let mut state = self.locate(stream_id)?;
        if state.phase != StreamPhase::OpeningRemote {
            return Err(ProtocolError::ProtocolViolation("unexpected stream acceptance"));
        }
        state.phase = StreamPhase::Open;
        state.receive_window = local_receive_window as u64;
        state.last_activity_ms = now_ms;
        self.replace(stream_id, state);
        Ok(())
    }

    /// Forgets a stream; its ID stays used.
    pub fn reject_or_close(&mut self, stream_id: u64) -> (result: Result<(), ProtocolError>)
        requires
            old(self).wf(),
        ensures
            final(self).wf(),
            result is Ok <==> !old(self).lookup_fails(stream_id),
            result is Err ==> result == Err::<(), ProtocolError>(ProtocolError::InvalidStreamId)
                && *final(self) == *old(self),
            result is Ok ==> {
                &&& final(self).streams() == old(self).streams().remove(stream_id)
                &&& final(self).highest_stream_id() == old(self).highest_stream_id()
                &&& final(self).stream_limit() == old(self).stream_limit()
                &&& final(self).connection_send() == old(self).connection_send()
                &&& final(self).connection_receive() == old(self).connection_receive()
            },
    {
        self.locate(stream_id)?;
        self.streams.remove(&stream_id);
        proof {
            assert(self.streams@.dom() =~= old(self).streams@.dom().remove(stream_id));
            assert(self.streams() =~= old(self).streams().remove(stream_id));
            assert forall|id: u64| #[trigger] self.streams@.contains_key(id) implies {
                &&& stream_id_is_valid(id)
                &&& id <= self.maximum_seen_stream_id
                &&& self.streams@[id].send_window <= MAX_STREAM_WINDOW
                &&& self.streams@[id].receive_window <= MAX_STREAM_WINDOW
            } by {
                assert(old(self).streams@.contains_key(id));
            }
        }
        Ok(())
    }
}


impl FlowController {
    /// The outcome of `debit_send` for `bytes` outbound payload bytes.
    pub open spec fn debit_send_result(&self, stream_id: u64, bytes: usize) -> Result<(), ProtocolError> {
        if bytes == 0 {
            Err(ProtocolError::InvalidField("data_length"))
        } else if self.connection_send() < bytes {
            Err(ProtocolError::Backpressure)
        } else if self.lookup_fails(stream_id) {
            Err(ProtocolError::InvalidStreamId)
        } else if self.streams()[stream_id].phase != StreamPhase::Open
            || self.streams()[stream_id].local_half_closed {
            Err(ProtocolError::Closed)
        } else if self.streams()[stream_id].send_window < bytes {
            Err(ProtocolError::Backpressure)
        } else {
            Ok(())
        }
    }

    /// Whether `debit_receive` accepts `bytes` inbound payload bytes.
    pub open spec fn debit_receive_allowed(&self, stream_id: u64, bytes: usize) -> bool {
        &&& bytes != 0
        &&& self.connection_receive() >= bytes
        &&& self.streams().contains_key(stream_id)
        &&& self.streams()[stream_id].phase == StreamPhase::Open
        &&& !self.streams()[stream_id].remote_half_closed
        &&& self.streams()[stream_id].receive_window >= bytes
    }

    /// The outcome of adding `credit` to the send window (`outbound`) or the
    /// receive window of stream `stream_id`, or of the connection when it is 0.
    pub open spec fn credit_result(
        &self,
        stream_id: u64,
        credit: u32,
        outbound: bool,
        zero_error: ProtocolError,
    ) -> Result<(), ProtocolError> {
        if credit == 0 {
            Err(zero_error)
        } else if stream_id == 0 {
            if (if outbound {
                self.connection_send()
            } else {
                self.connection_receive()
            }) + credit > MAX_CONNECTION_WINDOW {
                Err(ProtocolError::FlowControlViolation)
            } else {
                Ok(())
            }
        } else if self.lookup_fails(stream_id) {
            Err(ProtocolError::InvalidStreamId)
        } else if (if outbound {
            self.streams()[stream_id].send_window
        } else {
            self.streams()[stream_id].receive_window
        }) + credit > MAX_STREAM_WINDOW {
            Err(ProtocolError::FlowControlViolation)
        } else {
            Ok(())
        }
    }

    /// Charges `bytes` of outbound payload to the connection and the stream.
    pub fn debit_send(&mut self, stream_id: u64, bytes: usize, now_ms: u64) -> (result: Result<
        (),
        ProtocolError,
    >)
        requires
            old(self).wf(),
        ensures
            final(self).wf(),
            result == old(self).debit_send_result(stream_id, bytes),
            result is Ok ==> old(self).with_stream(
                *final(self),
                stream_id,
                StreamView {
                    send_window: (old(self).streams()[stream_id].send_window - bytes) as u64,
                    last_activity_ms: now_ms,
                    ..old(self).streams()[stream_id]
                },
            ) && final(self).connection_send() == old(self).connection_send() - bytes
                && final(self).connection_receive() == old(self).connection_receive(),
            result is Err ==> *final(self) == *old(self),
    {
        let amount = bytes as u64;
        if amount == 0 {
            return Err(ProtocolError::InvalidField("data_length"));
        }
        if self.connection_send_window < amount {
            return Err(ProtocolError::Backpressure);
        }
        let mut state = self.locate(stream_id)?;
        if state.phase != StreamPhase::Open || state.local_half_closed {
            return Err(ProtocolError::Closed);
        }
        if state.send_window < amount {
            return Err(ProtocolError::Backpressure);
        }
        state.send_window = state.send_window - amount;
        state.last_activity_ms = now_ms;
        self.replace(stream_id, state);
        self.connection_send_window = self.connection_send_window - amount;
        Ok(())
    }

    /// Charges `bytes` of inbound payload; any excess is a flow-control violation.
    pub fn debit_receive(&mut self, stream_id: u64, bytes: usize, now_ms: u64) -> (result: Result<
        (),
        ProtocolError,
    >)
        requires
            old(self).wf(),
        ensures
            final(self).wf(),
            result is Ok <==> old(self).debit_receive_allowed(stream_id, bytes),
            result is Err ==> result == Err::<(), ProtocolError>(
                ProtocolError::FlowControlViolation,
            ) && *final(self) == *old(self),
            result is Ok ==> old(self).with_stream(
                *final(self),
                stream_id,
                StreamView {
                    receive_window: (old(self).streams()[stream_id].receive_window - bytes) as u64,
                    last_activity_ms: now_ms,
                    ..old(self).streams()[stream_id]
                },
            ) && final(self).connection_receive() == old(self).connection_receive() - bytes
                && final(self).connection_send() == old(self).connection_send(),
    {
        proof {
            self.lemma_bounded();
        }
        let amount = bytes as u64;
        let found = self.lookup(stream_id);
        let invalid_stream = match found {
            Some(state) => state.phase != StreamPhase::Open || state.remote_half_closed
                || state.receive_window < amount,
            None => true,
        };
        if amount == 0 || self.connection_receive_window < amount || invalid_stream {
            return Err(ProtocolError::FlowControlViolation);
        }
        let mut state = match found {
            Some(state) => state,
            None => return Err(ProtocolError::FlowControlViolation),
        };
        state.receive_window = state.receive_window - amount;
        state.last_activity_ms = now_ms;
        self.replace(stream_id, state);
        self.connection_receive_window = self.connection_receive_window - amount;
        Ok(())
    }

    fn add_credit(&mut self, stream_id: u64, credit: u32, outbound: bool, now_ms: u64) -> (result:
        Result<(), ProtocolError>)
        requires
            old(self).wf(),
            credit != 0,
        ensures
            final(self).wf(),
            result == old(self).credit_result(
                stream_id,
                credit,
                outbound,
                ProtocolError::FlowControlViolation,
            ),
            result is Err ==> *final(self) == *old(self),
            result is Ok ==> old(self).credited(*final(self), stream_id, credit, outbound, now_ms),
    {
        if stream_id == 0 {
            if outbound {
                self.connection_send_window = checked_credit_add(
                    self.connection_send_window,
                    credit as u64,
                    MAX_CONNECTION_WINDOW,
                )?;
            } else {
                self.connection_receive_window = checked_credit_add(
                    self.connection_receive_window,
                    credit as u64,
                    MAX_CONNECTION_WINDOW,
                )?;
            }
            proof {
                assert(self.streams() == old(self).streams());
            }
            return Ok(());
        }
        let mut state = self.locate(stream_id)?;
        if outbound {
            state.send_window = checked_credit_add(state.send_window, credit as u64, MAX_STREAM_WINDOW)?;
        } else {
            state.receive_window = checked_credit_add(
                state.receive_window,
                credit as u64,
                MAX_STREAM_WINDOW,
            )?;
        }
        state.last_activity_ms = now_ms;
        self.replace(stream_id, state);
        Ok(())
    }

    /// `after` is `self` with `credit` added to the chosen window.
    pub open spec fn credited(
        &self,
        after: Self,
        stream_id: u64,
        credit: u32,
        outbound: bool,
        now_ms: u64,
    ) -> bool {
        if stream_id == 0 {
            &&& after.streams() == self.streams()
            &&& after.highest_stream_id() == self.highest_stream_id()
            &&& after.stream_limit() == self.stream_limit()
            &&& after.connection_send() == if outbound {
                self.connection_send() + credit
            } else {
                self.connection_send() as int
            }
            &&& after.connection_receive() == if outbound {
                self.connection_receive() as int
            } else {
                self.connection_receive() + credit
            }
        } else {
            let before = self.streams()[stream_id];
            &&& self.with_stream(
                after,
                stream_id,
                if outbound {
                    StreamView {
                        send_window: (before.send_window + credit) as u64,
                        last_activity_ms: now_ms,
                        ..before
                    }
                } else {
                    StreamView {
                        receive_window: (before.receive_window + credit) as u64,
                        last_activity_ms: now_ms,
                        ..before
                    }
                },
            )
            &&& after.connection_send() == self.connection_send()
            &&& after.connection_receive() == self.connection_receive()
        }
    }

    /// Applies send credit granted by the peer in a WindowUpdate; stream 0 is
    /// the connection.
    pub fn receive_window_update(&mut self, stream_id: u64, credit: u32, now_ms: u64) -> (result:
        Result<(), ProtocolError>)
        requires
            old(self).wf(),
        ensures
            final(self).wf(),
            result == old(self).credit_result(
                stream_id,
                credit,
                true,
                ProtocolError::FlowControlViolation,
            ),
            result is Err ==> *final(self) == *old(self),
            result is Ok ==> old(self).credited(*final(self), stream_id, credit, true, now_ms),
    {
        if credit == 0 {
            return Err(ProtocolError::FlowControlViolation);
        }
        self.add_credit(stream_id, credit, true, now_ms)
    }

    /// Restores local receive credit before a WindowUpdate is sent; call it only
    /// once the application has consumed the bytes. Stream 0 is the connection.
    pub fn grant_receive_credit(&mut self, stream_id: u64, credit: u32, now_ms: u64) -> (result:
        Result<(), ProtocolError>)
        requires
            old(self).wf(),
        ensures
            final(self).wf(),
            result == old(self).credit_result(
                stream_id,
                credit,
                false,
                ProtocolError::InvalidField("window_credit"),
            ),
            result is Err ==> *final(self) == *old(self),
            result is Ok ==> old(self).credited(*final(self), stream_id, credit, false, now_ms),
    {
        if credit == 0 {
            return Err(ProtocolError::InvalidField("window_credit"));
        }
        self.add_credit(stream_id, credit, false, now_ms)
    }

    /// Granting back the credit of a receive debit undoes it exactly: after
    /// `debit_receive(s, n)` succeeds, `grant_receive_credit(s, n)` succeeds and
    /// restores the stream's receive window, and `grant_receive_credit(0, n)`
    /// then succeeds and restores the connection's. A zero grant is always an
    /// invalid `window_credit`.
    pub proof fn lemma_credit_undoes_debit(
        f: Self,
        g: Self,
        h: Self,
        k: Self,
        stream_id: u64,
        n: u32,
        t1: u64,
        t2: u64,
        t3: u64,
    )
        requires
            f.wf(),
            f.debit_receive_allowed(stream_id, n as usize),
            f.with_stream(
                g,
                stream_id,
                StreamView {
                    receive_window: (f.streams()[stream_id].receive_window - n) as u64,
                    last_activity_ms: t1,
                    ..f.streams()[stream_id]
                },
            ),
            g.connection_receive() == f.connection_receive() - n,
            g.connection_send() == f.connection_send(),
            g.credited(h, stream_id, n, false, t2),
            h.credited(k, 0, n, false, t3),
        ensures
            g.credit_result(stream_id, n, false, ProtocolError::InvalidField("window_credit")) == Ok::<
                (),
                ProtocolError,
            >(()),
            h.streams()[stream_id].receive_window == f.streams()[stream_id].receive_window,
            h.credit_result(0, n, false, ProtocolError::InvalidField("window_credit")) == Ok::<
                (),
                ProtocolError,
            >(()),
            k.connection_receive() == f.connection_receive(),
            forall|id: u64| #[trigger]
                g.credit_result(id, 0, false, ProtocolError::InvalidField("window_credit")) == Err::<
                    (),
                    ProtocolError,
                >(ProtocolError::InvalidField("window_credit")),
    {
        f.lemma_bounded();
        assert(f.streams().contains_key(stream_id));
        assert(stream_id_is_valid(stream_id));
        assert(stream_id != 0) by {
            reveal(stream_id_is_valid);
        }
        assert(g.streams()[stream_id].receive_window == f.streams()[stream_id].receive_window - n);
    }

    /// A local half-close is final for sending: once it succeeded, a second
    /// one fails with `Closed` and every send debit of the stream fails with
    /// `Closed`, while its receive side is untouched.
    pub proof fn lemma_local_half_close_stops_sending(f: Self, g: Self, stream_id: u64, now_ms: u64)
        requires
            f.wf(),
            f.half_close_result(stream_id, true) is Ok,
            f.with_stream(
                g,
                stream_id,
                StreamView { local_half_closed: true, last_activity_ms: now_ms, ..f.streams()[stream_id] },
            ),
            g.connection_send() == f.connection_send(),
            g.connection_receive() == f.connection_receive(),
        ensures
            g.half_close_result(stream_id, true) == Err::<(), ProtocolError>(ProtocolError::Closed),
            forall|bytes: usize|
                0 < bytes <= g.connection_send() ==> #[trigger] g.debit_send_result(stream_id, bytes)
                    == Err::<(), ProtocolError>(ProtocolError::Closed),
            forall|bytes: usize| #[trigger]
                g.debit_receive_allowed(stream_id, bytes) == f.debit_receive_allowed(stream_id, bytes),
    {
    }

    /// The outcome of a half-close of either direction.
    pub open spec fn half_close_result(&self, stream_id: u64, local: bool) -> Result<
        (),
        ProtocolError,
    > {
        if self.lookup_fails(stream_id) {
            Err(ProtocolError::InvalidStreamId)
        } else if self.streams()[stream_id].phase != StreamPhase::Open || (if local {
            self.streams()[stream_id].local_half_closed
        } else {
            self.streams()[stream_id].remote_half_closed
        }) {
            if local {
                Err(ProtocolError::Closed)
            } else {
                Err(ProtocolError::ProtocolViolation("duplicate remote half-close"))
            }
        } else {
            Ok(())
        }
    }

    pub fn local_half_close(&mut self, stream_id: u64, now_ms: u64) -> (result: Result<
        (),
        ProtocolError,
    >)
        requires
            old(self).wf(),
        ensures
            final(self).wf(),
            result == old(self).half_close_result(stream_id, true),
            result is Ok ==> old(self).with_stream(
                *final(self),
                stream_id,
                StreamView {
                    local_half_closed: true,
                    last_activity_ms: now_ms,
                    ..old(self).streams()[stream_id]
                },
            ) && final(self).connection_send() == old(self).connection_send()
                && final(self).connection_receive() == old(self).connection_receive(),
            result is Err ==> *final(self) == *old(self),
    {
        let mut state = self.locate(stream_id)?;
        if state.phase != StreamPhase::Open || state.local_half_closed {
            return Err(ProtocolError::Closed);
        }
        state.local_half_closed = true;
        state.last_activity_ms = now_ms;
        self.replace(stream_id, state);
        Ok(())
    }

    pub fn receive_half_close(&mut self, stream_id: u64, now_ms: u64) -> (result: Result<
        (),
        ProtocolError,
    >)
        requires
            old(self).wf(),
        ensures
            final(self).wf(),
            result == old(self).half_close_result(stream_id, false),
            result is Ok ==> old(self).with_stream(
                *final(self),
                stream_id,
                StreamView {
                    remote_half_closed: true,
                    last_activity_ms: now_ms,
                    ..old(self).streams()[stream_id]
                },
            ) && final(self).connection_send() == old(self).connection_send()
                && final(self).connection_receive() == old(self).connection_receive(),
            result is Err ==> *final(self) == *old(self),
    {
        let mut state = self.locate(stream_id)?;
        if state.phase != StreamPhase::Open || state.remote_half_closed {
            return Err(ProtocolError::ProtocolViolation("duplicate remote half-close"));
        }
        state.remote_half_closed = true;
        state.last_activity_ms = now_ms;
        self.replace(stream_id, state);
        Ok(())
    }

    /// The IDs, in ascending order, of the streams idle for at least
    /// `timeout_ms` at `now_ms`.
    pub fn expire_idle(&self, now_ms: u64, timeout_ms: u64) -> (expired: Vec<u64>)
        requires
            self.wf(),
        ensures
            forall|a: int, b: int| 0 <= a < b < expired@.len() ==> expired@[a] < expired@[b],
            forall|id: u64|
                expired@.contains(id) <==> self.streams().contains_key(id) && is_idle(
                    self.streams()[id].last_activity_ms,
                    now_ms,
                    timeout_ms,
                ),
    {
        let entries = self.streams.iter();
        let ghost m = self.streams@;
        let ghost s = entries.remaining();
        proof {
            lemma_keys_ascending(s.map_values(|kv: (&u64, &StreamState)| *kv.0));
            assert forall|a: int, b: int| 0 <= a < b < s.len() implies *s[a].0 < *s[b].0 by {
                let keys = s.map_values(|kv: (&u64, &StreamState)| *kv.0);
                assert(keys[a] == *s[a].0 && keys[b] == *s[b].0);
            }
        }
        let mut expired: Vec<u64> = Vec::new();
        let ghost mut witness: Seq<int> = Seq::empty();
        for entry in it: entries
            invariant
                m == self.streams@,
                it.seq() == s,
                s.len() == m.dom().len(),
                forall|j: int|
                    0 <= j < s.len() ==> m.contains_key(*(#[trigger] s[j]).0) && m[*s[j].0] == *s[j].1,
                forall|k: u64| #[trigger] m.contains_key(k) ==> s.contains((&k, &m[k])),
                forall|a: int, b: int| 0 <= a < b < s.len() ==> *s[a].0 < *s[b].0,
                witness.len() == expired@.len(),
                forall|a: int, b: int| 0 <= a < b < expired@.len() ==> expired@[a] < expired@[b],
                forall|a: int|
                    #![trigger witness[a]]
                    0 <= a < expired@.len() ==> 0 <= witness[a] < it.index() && *s[witness[a]].0
                        == expired@[a] && is_idle(s[witness[a]].1.last_activity_ms, now_ms, timeout_ms),
                forall|j: int|
                    0 <= j < it.index() && is_idle(
                        (#[trigger] s[j]).1.last_activity_ms,
                        now_ms,
                        timeout_ms,
                    ) ==> expired@.contains(*s[j].0),
        {
            let (stream_id, state) = entry;
            let ghost i = it.index();
            proof {
                assert(entry == s[i]);
            }
            if now_ms >= state.last_activity_ms && now_ms - state.last_activity_ms >= timeout_ms {
                proof {
                    assert forall|a: int| 0 <= a < expired@.len() implies expired@[a] < *stream_id by {
                        let j = witness[a];
                        assert(*s[j].0 < *s[i].0);
                    }
                }
                let ghost before = expired@;
                expired.push(*stream_id);
                proof {
                    witness = witness.push(i);
                    assert forall|j: int|
                        0 <= j < i + 1 && is_idle(
                            (#[trigger] s[j]).1.last_activity_ms,
                            now_ms,
                            timeout_ms,
                        ) implies expired@.contains(*s[j].0) by {
                        if j < i {
                            assert(before.contains(*s[j].0));
                            let a = choose|a: int| 0 <= a < before.len() && before[a] == *s[j].0;
                            assert(expired@[a] == before[a]);
                        } else {
                            assert(expired@[before.len() as int] == *stream_id);
                        }
                    }
                }
            }
        }
        proof {
            assert forall|id: u64|
                expired@.contains(id) <==> self.streams().contains_key(id) && is_idle(
                    self.streams()[id].last_activity_ms,
                    now_ms,
                    timeout_ms,
                ) by {
                if expired@.contains(id) {
                    let a = choose|a: int| 0 <= a < expired@.len() && expired@[a] == id;
                    let j = witness[a];
                    assert(m.contains_key(*s[j].0));
                }
                if self.streams().contains_key(id) {
                    assert(m.contains_key(id));
                    assert(s.contains((&id, &m[id])));
                    let j = choose|j: int| 0 <= j < s.len() && s[j] == (&id, &m[id]);
                    assert(*s[j].0 == id);
                }
            }
        }
        expired
    }
}

/// Only a fresh odd ID above every ID seen so far can open a stream.
pub proof fn lemma_open_ids_are_fresh(f: FlowController, stream_id: u64, send_window: u32, receive_window: u32)
    requires
        f.open_result(stream_id, send_window, receive_window) is Ok,
    ensures
        stream_id_is_valid(stream_id),
        stream_id > f.highest_stream_id(),
        !f.streams().contains_key(stream_id),
{
}

/// Once a stream is opened, its ID and every lower ID are refused for good.
pub proof fn lemma_ids_never_reused(
    f: FlowController,
    g: FlowController,
    stream_id: u64,
    state: StreamView,
    other: u64,
    send_window: u32,
    receive_window: u32,
)
    requires
        f.opened(g, stream_id, state),
        other <= stream_id,
    ensures
        g.open_result(other, send_window, receive_window) == Err::<(), ProtocolError>(
            ProtocolError::InvalidStreamId,
        ),
{
}

/// Keys the map iterator yields in increasing order are strictly ascending.
proof fn lemma_keys_ascending(keys: Seq<u64>)
    requires
        vstd::std_specs::btree::increasing_seq(keys),
    ensures
        forall|a: int, b: int| 0 <= a < b < keys.len() ==> keys[a] < keys[b],
{
    assert forall|a: int, b: int| 0 <= a < b < keys.len() implies keys[a] < keys[b] by {
        assert(keys[a].cmp_spec(&keys[b]) is Less);
    }
}

} // verus!
