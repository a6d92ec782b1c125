//! Bounded fair scheduling for the relay multiplexer.
use vstd::prelude::*;

use crate::fair_queue::{
    bytes_of, has_stream, lemma_bytes_drop_first, lemma_bytes_push, lemma_bytes_single,
    lemma_ring_remove, pop_outcome, ring_after_cancel, ring_after_push, ring_bytes, stream_index,
    stream_items, FairQueue,
};
use crate::multihop::error::{Error, ErrorCode};

verus! {

/// Bytes charged for every queued command on top of its payload.
pub const ACCOUNTING_OVERHEAD: usize = 128;

#[derive(Clone, Debug, PartialEq, Eq)]
pub enum OutboundCommand {
    Open { session_id: u64, encoded: Vec<u8> },
    Data { session_id: u64, payload: Vec<u8> },
    Control { encoded: Vec<u8> },
}

/// The logical session a command belongs to; control commands have none.
pub open spec fn command_session(command: OutboundCommand) -> Option<u64> {
    match command {
        OutboundCommand::Open { session_id, .. } => Some(session_id),
        OutboundCommand::Data { session_id, .. } => Some(session_id),
        OutboundCommand::Control { .. } => None,
    }
}

/// The length of a command's encoded body or payload.
pub open spec fn command_length(command: OutboundCommand) -> nat {
    match command {
        OutboundCommand::Open { encoded, .. } => encoded@.len(),
        OutboundCommand::Data { payload, .. } => payload@.len(),
        OutboundCommand::Control { encoded } => encoded@.len(),
    }
}

/// Session IDs are odd and non-zero.
pub open spec fn session_id_valid(session_id: u64) -> bool {
    session_id != 0 && session_id % 2 == 1
}

impl OutboundCommand {
    fn session_id(&self) -> (session: Option<u64>)
        ensures
            session == command_session(*self),
    {
        match self {
            OutboundCommand::Open { session_id, .. } => Some(*session_id),
            OutboundCommand::Data { session_id, .. } => Some(*session_id),
            OutboundCommand::Control { .. } => None,
        }
    }

    fn accounted_bytes(&self) -> (result: Result<usize, Error>)
        ensures
            match result {
                Ok(bytes) => bytes == command_length(*self) + ACCOUNTING_OVERHEAD,
                Err(e) => command_length(*self) + ACCOUNTING_OVERHEAD > usize::MAX && e.code
                    == ErrorCode::ResourceExhausted,
            },
    {
        let payload = match self {
            OutboundCommand::Open { encoded, .. } => encoded.len(),
            OutboundCommand::Data { payload, .. } => payload.len(),
            OutboundCommand::Control { encoded } => encoded.len(),
        };
        match payload.checked_add(ACCOUNTING_OVERHEAD) {
            Some(bytes) => Ok(bytes),
            None => Err(Error::new(ErrorCode::ResourceExhausted)),
        }
    }
}

/// One-command round-robin across logical sessions with a bounded control
/// burst. Saturation returns `Backpressure`; the queue never grows past its
/// budget.
pub struct FairMuxQueue {
    queue: FairQueue<OutboundCommand>,
    maximum_bytes: usize,
    maximum_per_session_bytes: usize,
    maximum_control_frames: usize,
}

/// Whether `FairMuxQueue::new` accepts these limits.
pub open spec fn mux_limits_valid(
    maximum_bytes: usize,
    maximum_per_session_bytes: usize,
    maximum_control_frames: usize,
) -> bool {
    &&& maximum_bytes != 0
    &&& maximum_per_session_bytes != 0
    &&& maximum_per_session_bytes <= maximum_bytes
    &&& maximum_control_frames != 0
}

impl FairMuxQueue {
    pub closed spec fn byte_budget(&self) -> usize {
        self.maximum_bytes
    }

    pub closed spec fn session_budget(&self) -> usize {
        self.maximum_per_session_bytes
    }

    pub closed spec fn control_budget(&self) -> usize {
        self.maximum_control_frames
    }

    /// Queued control commands with their accounted bytes, oldest first.
    pub closed spec fn control(&self) -> Seq<(OutboundCommand, usize)> {
        self.queue.control_items()
    }

    /// Sessions with queued commands, in service order.
    pub closed spec fn sessions(&self) -> Seq<(u64, Seq<(OutboundCommand, usize)>)> {
        self.queue.ring()
    }

    pub closed spec fn burst(&self) -> usize {
        self.queue.burst()
    }

    /// All accounted bytes queued.
    pub open spec fn total(&self) -> nat {
        bytes_of(self.control()) + ring_bytes(self.sessions())
    }

    pub closed spec fn wf(&self) -> bool {
        &&& self.queue.wf()
        &&& mux_limits_valid(
            self.maximum_bytes,
            self.maximum_per_session_bytes,
            self.maximum_control_frames,
        )
        &&& self.queue.total() <= self.maximum_bytes
        &&& self.queue.control_items().len() <= self.maximum_control_frames
        &&& forall|i: int|
            0 <= i < self.queue.ring().len() ==> {
                &&& session_id_valid(#[trigger] self.queue.ring()[i].0)
                &&& bytes_of(self.queue.ring()[i].1) <= self.maximum_per_session_bytes
            }
    }

    /// The queue stays within its byte budget, its control-frame budget and
    /// every session's budget, in every state.
    pub proof fn lemma_within_budget(&self)
        requires
            self.wf(),
        ensures
            self.total() <= self.byte_budget(),
            self.control().len() <= self.control_budget(),
            forall|id: u64| #[trigger]
                bytes_of(stream_items(self.sessions(), id)) <= self.session_budget(),
    {
        assert forall|id: u64| #[trigger]
            bytes_of(stream_items(self.sessions(), id)) <= self.session_budget() by {
            if has_stream(self.sessions(), id) {
                let i = stream_index(self.sessions(), id);
                assert(self.queue.ring()[i].0 == id);
            } else {
                assert(stream_items(self.sessions(), id) =~= Seq::<(OutboundCommand, usize)>::empty());
                assert(Seq::<(OutboundCommand, usize)>::empty().map_values(
                    |x: (OutboundCommand, usize)| x.1 as nat,
                ) =~= Seq::<nat>::empty());
            }
        }
    }

    pub fn new(maximum_bytes: usize, maximum_per_session_bytes: usize, maximum_control_frames: usize) -> (result:
        Result<Self, Error>)
        ensures
            match result {
                Ok(queue) => {
                    &&& mux_limits_valid(
                        maximum_bytes,
                        maximum_per_session_bytes,
                        maximum_control_frames,
                    )
                    &&& queue.wf()
                    &&& queue.byte_budget() == maximum_bytes
                    &&& queue.session_budget() == maximum_per_session_bytes
                    &&& queue.control_budget() == maximum_control_frames
                    &&& queue.control().len() == 0
                    &&& queue.sessions().len() == 0
                    &&& queue.burst() == 0
                },
                Err(e) => !mux_limits_valid(
                    maximum_bytes,
                    maximum_per_session_bytes,
                    maximum_control_frames,
                ) && e.code == ErrorCode::InvalidConfiguration,
            },
    {
        if maximum_bytes == 0 || maximum_per_session_bytes == 0 || maximum_per_session_bytes
            > maximum_bytes || maximum_control_frames == 0 {
            return Err(Error::new(ErrorCode::InvalidConfiguration));
        }
        Ok(
            FairMuxQueue {
                queue: FairQueue::new(),
                maximum_bytes,
                maximum_per_session_bytes,
                maximum_control_frames,
            },
        )
    }

    pub fn queued_bytes(&self) -> (bytes: usize)
        requires
            self.wf(),
        ensures
            bytes == self.total(),
    {
        self.queue.queued_bytes()
    }

    /// The outcome of `try_push`.
    pub open spec fn push_result(&self, command: OutboundCommand) -> Result<(), ErrorCode> {
        let bytes = command_length(command) + ACCOUNTING_OVERHEAD;
        if bytes > usize::MAX || self.total() + bytes > usize::MAX {
            Err(ErrorCode::ResourceExhausted)
        } else if self.total() + bytes > self.byte_budget() {
            Err(ErrorCode::Backpressure)
        } else {
            match command_session(command) {
                None => if self.control().len() >= self.control_budget() {
                    Err(ErrorCode::Backpressure)
                } else {
                    Ok(())
                },
                Some(session_id) => if !session_id_valid(session_id) {
                    Err(ErrorCode::ProtocolViolation)
                } else if bytes_of(stream_items(self.sessions(), session_id)) + bytes
                    > self.session_budget() {
                    Err(ErrorCode::Backpressure)
                } else {
                    Ok(())
                },
            }
        }
    }

    /// Queues `command`, or refuses it without queueing anything.
    pub fn try_push(&mut self, command: OutboundCommand) -> (result: Result<(), Error>)
        requires
            old(self).wf(),
        ensures
            final(self).wf(),
            match (result, old(self).push_result(command)) {
                (Ok(()), Ok(())) => true,
                (Err(e), Err(code)) => e.code == code,
                _ => false,
            },
            result is Err ==> *final(self) == *old(self),
            result is Ok ==> {
                let entry = (command, (command_length(command) + ACCOUNTING_OVERHEAD) as usize);
                &&& final(self).total() == old(self).total() + command_length(command)
                    + ACCOUNTING_OVERHEAD
                &&& final(self).total() <= final(self).byte_budget()
                &&& final(self).burst() == old(self).burst()
                &&& final(self).byte_budget() == old(self).byte_budget()
                &&& final(self).session_budget() == old(self).session_budget()
                &&& final(self).control_budget() == old(self).control_budget()
                &&& match command_session(command) {
                    None => final(self).control() == old(self).control().push(entry)
                        && final(self).sessions() == old(self).sessions(),
                    Some(session_id) => final(self).control() == old(self).control()
                        && final(self).sessions() == ring_after_push(
                        old(self).sessions(),
                        session_id,
                        entry,
                    ),
                }
            },
    {
        let bytes = command.accounted_bytes()?;
        let queued = self.queue.queued_bytes();
        let total = match queued.checked_add(bytes) {
            Some(total) => total,
            None => return Err(Error::new(ErrorCode::ResourceExhausted)),
        };
        if total > self.maximum_bytes {
            return Err(Error::new(ErrorCode::Backpressure));
        }
        match command.session_id() {
            None => {
                if self.queue.control_len() >= self.maximum_control_frames {
                    return Err(Error::new(ErrorCode::Backpressure));
                }
                let ghost r0 = self.queue.ring();
                self.queue.push_control(command, bytes);
                proof {
                    assert forall|i: int| 0 <= i < self.queue.ring().len() implies {
                        &&& session_id_valid(#[trigger] self.queue.ring()[i].0)
                        &&& bytes_of(self.queue.ring()[i].1) <= self.maximum_per_session_bytes
                    } by {
                        assert(self.queue.ring()[i] == r0[i]);
                    }
                }
            },
            Some(session_id) => {
                if session_id == 0 || session_id % 2 == 0 {
                    return Err(Error::new(ErrorCode::ProtocolViolation));
                }
                let current = self.queue.stream_bytes(session_id);
                proof {
                    let r = self.queue.ring();
                    if has_stream(r, session_id) {
                        lemma_ring_remove(r, stream_index(r, session_id));
                    }
                }
                let updated = match current.checked_add(bytes) {
                    Some(updated) => updated,
                    None => return Err(Error::new(ErrorCode::ResourceExhausted)),
                };
                if updated > self.maximum_per_session_bytes {
                    return Err(Error::new(ErrorCode::Backpressure));
                }
                let ghost r0 = self.queue.ring();
                let ghost entry = (command, bytes);
                self.queue.push_stream(session_id, command, bytes);
                proof {
                    if has_stream(r0, session_id) {
                        let k = stream_index(r0, session_id);
                        lemma_bytes_push(r0[k].1, entry);
                    } else {
                        lemma_bytes_single(entry);
                    }
                    assert forall|i: int| 0 <= i < self.queue.ring().len() implies {
                        &&& session_id_valid(#[trigger] self.queue.ring()[i].0)
                        &&& bytes_of(self.queue.ring()[i].1) <= self.maximum_per_session_bytes
                    } by {
                        if has_stream(r0, session_id) {
                            let k = stream_index(r0, session_id);
                            if i != k {
                                assert(self.queue.ring()[i] == r0[i]);
                            }
                        } else if i < r0.len() {
                            assert(self.queue.ring()[i] == r0[i]);
                        }
                    }
                }
            },
        }
        Ok(())
    }

    /// Serves the next command as `pop_outcome` describes.
    pub fn pop_next(&mut self) -> (command: Option<OutboundCommand>)
        requires
            old(self).wf(),
        ensures
            final(self).wf(),
            final(self).byte_budget() == old(self).byte_budget(),
            final(self).session_budget() == old(self).session_budget(),
            final(self).control_budget() == old(self).control_budget(),
            ({
                let (next, control, sessions, burst) = pop_outcome(
                    old(self).control(),
                    old(self).sessions(),
                    old(self).burst(),
                );
                &&& command == match next {
                    Some(entry) => Some(entry.0),
                    None => None::<OutboundCommand>,
                }
                &&& final(self).control() == control
                &&& final(self).sessions() == sessions
                &&& final(self).burst() == burst
            }),
    {
        let ghost r0 = self.queue.ring();
        let next = self.queue.pop_next();
        proof {
            assert forall|i: int| 0 <= i < self.queue.ring().len() implies {
                &&& session_id_valid(#[trigger] self.queue.ring()[i].0)
                &&& bytes_of(self.queue.ring()[i].1) <= self.maximum_per_session_bytes
            } by {
                if self.queue.ring() == r0 {
                } else if i + 1 < r0.len() {
                    assert(self.queue.ring()[i] == r0[i + 1]);
                } else {
                    assert(self.queue.ring()[i] == (r0[0].0, r0[0].1.drop_first()));
                    lemma_bytes_drop_first(r0[0].1);
                }
            }
        }
        match next {
            Some(entry) => Some(entry.0),
            None => None,
        }
    }

    /// Drops everything queued for `session_id`.
    pub fn cancel_session(&mut self, session_id: u64)
        requires
            old(self).wf(),
        ensures
            final(self).wf(),
            final(self).byte_budget() == old(self).byte_budget(),
            final(self).session_budget() == old(self).session_budget(),
            final(self).control_budget() == old(self).control_budget(),
            final(self).control() == old(self).control(),
            final(self).sessions() == ring_after_cancel(old(self).sessions(), session_id),
            final(self).burst() == old(self).burst(),
    {
        let ghost r0 = self.queue.ring();
        proof {
            assert(forall|j: int| 0 <= j < r0.len() ==> session_id_valid(#[trigger] r0[j].0) && bytes_of(r0[j].1) <= self.maximum_per_session_bytes);
        }
        self.queue.cancel(session_id);
        proof {
            assert forall|i: int| 0 <= i < self.queue.ring().len() implies {
                &&& session_id_valid(#[trigger] self.queue.ring()[i].0)
                &&& bytes_of(self.queue.ring()[i].1) <= self.maximum_per_session_bytes
            } by {
                if has_stream(r0, session_id) {
                    let k = stream_index(r0, session_id);
                    assert(0 <= k < r0.len());
                    assert(self.queue.ring() == r0.remove(k));
                    if i < k {
                        assert(self.queue.ring()[i] == r0[i]);
                        assert(session_id_valid(r0[i].0));
                    } else {
                        assert(self.queue.ring()[i] == r0[i + 1]);
                        assert(session_id_valid(r0[i + 1].0));
                    }
                } else {
                    assert(self.queue.ring() == r0);
                    assert(self.queue.ring()[i] == r0[i]);
                    assert(session_id_valid(r0[i].0));
                }
            }
        }
    }
}

#[derive(Clone, Copy, Debug)]
pub struct PoolLimits {
    pub maximum_total_connections: usize,
    pub maximum_connections_per_exit: usize,
}

/// How many times `x` occurs in `s`.
pub open spec fn occurrences(s: Seq<Seq<char>>, x: Seq<char>) -> nat
    decreases s.len(),
{
    if s.len() == 0 {
        0
    } else {
        occurrences(s.drop_last(), x) + if s.last() == x { 1nat } else { 0nat }
    }
}

/// Bounds the pooled inter-gateway connections, in total and per exit.
pub struct ConnectionPoolLimiter {
    held: Vec<String>,
    limits: PoolLimits,
}

impl ConnectionPoolLimiter {
    /// The exit of every held connection, in acquisition order.
    pub closed spec fn held_exits(&self) -> Seq<Seq<char>> {
        self.held@.map_values(|s: String| s@)
    }

    pub closed spec fn limits_spec(&self) -> PoolLimits {
        self.limits
    }

    /// Positive limits, the per-exit one at most the total
    /// (`InvalidConfiguration` otherwise).
    pub fn new(limits: PoolLimits) -> (result: Result<Self, Error>)
        ensures
            result is Ok <==> limits.maximum_total_connections > 0 && limits.maximum_connections_per_exit > 0
                && limits.maximum_connections_per_exit <= limits.maximum_total_connections,
            result matches Ok(pool) ==> pool.held_exits().len() == 0 && pool.limits_spec() == limits,
            result matches Err(e) ==> e.code == ErrorCode::InvalidConfiguration,
    {
        if limits.maximum_total_connections == 0 || limits.maximum_connections_per_exit == 0
            || limits.maximum_connections_per_exit > limits.maximum_total_connections {
            return Err(Error::new(ErrorCode::InvalidConfiguration));
        }
        Ok(ConnectionPoolLimiter { held: Vec::new(), limits })
    }

    fn count(&self, exit_id: &str) -> (n: usize)
        ensures
            n == occurrences(self.held_exits(), exit_id@),
    {
        let mut n: usize = 0;
        let mut i: usize = 0;
        while i < self.held.len()
            invariant
                i <= self.held@.len(),
                n <= i,
                n == occurrences(self.held_exits().take(i as int), exit_id@),
            decreases self.held@.len() - i,
        {
            proof {
                assert(self.held_exits().take(i + 1).drop_last() =~= self.held_exits().take(i as int));
            }
            let a = self.held[i].as_str().as_bytes();
            let b = exit_id.as_bytes();
            let same = crate::text::bytes_equal(a, b);
            proof {
                if same {
                    vstd::utf8::encode_utf8_decode_utf8(self.held@[i as int]@);
                    vstd::utf8::encode_utf8_decode_utf8(exit_id@);
                }
            }
            if same {
                n = n + 1;
            }
            i = i + 1;
        }
        proof {
            assert(self.held_exits().take(self.held@.len() as int) =~= self.held_exits());
        }
        n
    }

    /// Takes a connection slot for an exit: an empty or over-long exit ID is
    /// `InvalidConfiguration`; a full pool or a full exit `ResourceExhausted`.
    pub fn try_acquire(&mut self, exit_id: &str) -> (result: Result<(), Error>)
        ensures
            final(self).limits_spec() == old(self).limits_spec(),
            ({
                let length = vstd::utf8::encode_utf8(exit_id@).len();
                if length == 0 || length > 128 {
                    result == Err::<(), Error>(Error { code: ErrorCode::InvalidConfiguration })
                } else if old(self).held_exits().len() >= old(self).limits_spec().maximum_total_connections
                    || occurrences(old(self).held_exits(), exit_id@) >= old(self).limits_spec().maximum_connections_per_exit {
                    result == Err::<(), Error>(Error { code: ErrorCode::ResourceExhausted })
                } else {
                    result is Ok
                }
            }),
            result is Ok ==> final(self).held_exits() == old(self).held_exits().push(exit_id@),
            result is Err ==> final(self).held_exits() == old(self).held_exits(),
    {
        let bytes = exit_id.as_bytes();
        if bytes.len() == 0 || bytes.len() > 128 {
            return Err(Error::new(ErrorCode::InvalidConfiguration));
        }
        if self.held.len() >= self.limits.maximum_total_connections {
            return Err(Error::new(ErrorCode::ResourceExhausted));
        }
        if self.count(exit_id) >= self.limits.maximum_connections_per_exit {
            return Err(Error::new(ErrorCode::ResourceExhausted));
        }
        self.held.push(exit_id.to_owned());
        proof {
            assert(self.held_exits() =~= old(self).held_exits().push(exit_id@));
        }
        Ok(())
    }

    /// Returns one slot of an exit; nothing happens if it holds none.
    pub fn release(&mut self, exit_id: &str)
        ensures
            final(self).limits_spec() == old(self).limits_spec(),
            !old(self).held_exits().contains(exit_id@) ==> final(self).held_exits() == old(self).held_exits(),
            old(self).held_exits().contains(exit_id@) ==> exists|i: int|
                0 <= i < old(self).held_exits().len() && old(self).held_exits()[i] == exit_id@ && final(self).held_exits()
                    == old(self).held_exits().remove(i),
    {
        let mut i: usize = 0;
        while i < self.held.len()
            invariant
                i <= self.held@.len(),
                self.limits_spec() == old(self).limits_spec(),
                self.held@ == old(self).held@,
                forall|j: int| 0 <= j < i ==> self.held_exits()[j] != exit_id@,
            decreases self.held@.len() - i,
        {
            let same = crate::text::bytes_equal(self.held[i].as_str().as_bytes(), exit_id.as_bytes());
            proof {
                if same {
                    vstd::utf8::encode_utf8_decode_utf8(self.held@[i as int]@);
                    vstd::utf8::encode_utf8_decode_utf8(exit_id@);
                }
            }
            if same {
                let ghost before = self.held_exits();
                self.held.remove(i);
                proof {
                    assert(self.held_exits() =~= before.remove(i as int));
                    assert(before[i as int] == exit_id@);
                }
                return;
            }
            i = i + 1;
        }
    }
}

} // verus!
