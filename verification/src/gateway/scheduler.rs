//! The bounded outbound scheduler of a gateway session.
use vstd::prelude::*;

use crate::fair_queue::{
    bytes_of, has_stream, lemma_bytes_drop_first, lemma_bytes_push, lemma_bytes_single,
    lemma_ring_remove, pop_outcome, ring_after_cancel, ring_after_push, ring_bytes, stream_index,
    stream_items, FairQueue,
};
use crate::gateway::error::ProtocolError;
use crate::gateway::wire::Body;

verus! {

/// One queued frame body with the bytes it is charged.
#[derive(Debug)]
pub struct OutboundItem {
    pub body: Body,
    pub accounted_bytes: usize,
}

/// Whether `FairScheduler::new` accepts these limits.
pub open spec fn scheduler_limits_valid(
    maximum_queued_bytes: usize,
    maximum_queued_bytes_per_stream: usize,
    maximum_control_frames: usize,
) -> bool {
    &&& maximum_queued_bytes != 0
    &&& maximum_queued_bytes_per_stream != 0
    &&& maximum_queued_bytes_per_stream <= maximum_queued_bytes
    &&& maximum_control_frames != 0
}

/// Bounded scheduler with a small control burst and one-frame round-robin
/// across data streams: a busy stream cannot monopolize the sender, and
/// control frames cannot starve data.
pub struct FairScheduler {
    queue: FairQueue<Body>,
    maximum_queued_bytes: usize,
    maximum_queued_bytes_per_stream: usize,
    maximum_control_frames: usize,
}

impl FairScheduler {
    pub closed spec fn byte_budget(&self) -> usize {
        self.maximum_queued_bytes
    }

    pub closed spec fn stream_budget(&self) -> usize {
        self.maximum_queued_bytes_per_stream
    }

    pub closed spec fn control_budget(&self) -> usize {
        self.maximum_control_frames
    }

    /// Queued control bodies with their accounted bytes, oldest first.
    pub closed spec fn control(&self) -> Seq<(Body, usize)> {
        self.queue.control_items()
    }

    /// Streams with queued data, in service order, each with its bodies.
    pub closed spec fn streams(&self) -> Seq<(u64, Seq<(Body, usize)>)> {
        self.queue.ring()
    }

    /// Control frames served since data was last served.
    pub closed spec fn burst(&self) -> usize {
        self.queue.burst()
    }

    /// All accounted bytes queued.
    pub open spec fn total(&self) -> nat {
        bytes_of(self.control()) + ring_bytes(self.streams())
    }

    pub closed spec fn wf(&self) -> bool {
        &&& self.queue.wf()
        &&& scheduler_limits_valid(
            self.maximum_queued_bytes,
            self.maximum_queued_bytes_per_stream,
            self.maximum_control_frames,
        )
        &&& self.queue.total() <= self.maximum_queued_bytes
        &&& forall|i: int|
            0 <= i < self.queue.ring().len() ==> bytes_of(#[trigger] self.queue.ring()[i].1)
                <= self.maximum_queued_bytes_per_stream
    }

    /// The scheduler stays within its byte budget and every stream's budget
    /// in every state: `new` establishes `wf` and every operation keeps it.
    pub proof fn lemma_within_budget(&self)
        requires
            self.wf(),
        ensures
            self.total() <= self.byte_budget(),
            forall|id: u64| #[trigger]
                bytes_of(stream_items(self.streams(), id)) <= self.stream_budget(),
    {
        assert forall|id: u64| #[trigger]
            bytes_of(stream_items(self.streams(), id)) <= self.stream_budget() by {
            if has_stream(self.streams(), id) {
                let i = stream_index(self.streams(), id);
                assert(self.queue.ring()[i].0 == id);
            } else {
                assert(stream_items(self.streams(), id) =~= Seq::<(Body, usize)>::empty());
                assert(Seq::<(Body, usize)>::empty().map_values(|x: (Body, usize)| x.1 as nat)
                    =~= Seq::<nat>::empty());
            }
        }
    }

    pub fn new(
        maximum_queued_bytes: usize,
        maximum_queued_bytes_per_stream: usize,
        maximum_control_frames: usize,
    ) -> (result: Result<Self, ProtocolError>)
        ensures
            match result {
                Ok(scheduler) => {
                    &&& scheduler_limits_valid(
                        maximum_queued_bytes,
                        maximum_queued_bytes_per_stream,
                        maximum_control_frames,
                    )
                    &&& scheduler.wf()
                    &&& scheduler.byte_budget() == maximum_queued_bytes
                    &&& scheduler.stream_budget() == maximum_queued_bytes_per_stream
                    &&& scheduler.control_budget() == maximum_control_frames
                    &&& scheduler.control().len() == 0
                    &&& scheduler.streams().len() == 0
                    &&& scheduler.burst() == 0
                },
                Err(e) => !scheduler_limits_valid(
                    maximum_queued_bytes,
                    maximum_queued_bytes_per_stream,
                    maximum_control_frames,
                ) && e == ProtocolError::InvalidField("scheduler_limits"),
            },
    {
        if maximum_queued_bytes == 0 || maximum_queued_bytes_per_stream == 0
            || maximum_queued_bytes_per_stream > maximum_queued_bytes || maximum_control_frames
            == 0 {
            return Err(ProtocolError::InvalidField("scheduler_limits"));
        }
        Ok(
            FairScheduler {
                queue: FairQueue::new(),
                maximum_queued_bytes,
                maximum_queued_bytes_per_stream,
                maximum_control_frames,
            },
        )
    }

    pub fn queued_bytes(&self) -> (bytes: usize)
        requires
            self.wf(),
        ensures
            bytes == self.total(),
    {
        self.queue.queued_bytes()
    }

    /// Room for `bytes` more within the global budget.
    pub open spec fn global_check(&self, bytes: usize) -> Result<(), ProtocolError> {
        if self.total() + bytes > usize::MAX {
            Err(ProtocolError::IntegerOverflow)
        } else if self.total() + bytes > self.byte_budget() {
            Err(ProtocolError::Backpressure)
        } else {
            Ok(())
        }
    }

    /// The outcome of `can_enqueue_control`.
    pub open spec fn control_check(&self, bytes: usize) -> Result<(), ProtocolError> {
        if self.control().len() >= self.control_budget() {
            Err(ProtocolError::Backpressure)
        } else {
            self.global_check(bytes)
        }
    }

    /// The outcome of `can_enqueue_stream`.
    pub open spec fn stream_check(&self, stream_id: u64, bytes: usize) -> Result<(), ProtocolError> {
        match self.global_check(bytes) {
            Err(e) => Err(e),
            Ok(()) => if bytes_of(stream_items(self.streams(), stream_id)) + bytes > usize::MAX {
                Err(ProtocolError::IntegerOverflow)
            } else if bytes_of(stream_items(self.streams(), stream_id)) + bytes
                > self.stream_budget() {
                Err(ProtocolError::Backpressure)
            } else {
                Ok(())
            },
        }
    }

    fn reserve_global(&self, bytes: usize) -> (result: Result<(), ProtocolError>)
        requires
            self.wf(),
        ensures
            result == self.global_check(bytes),
    {
        let updated = match self.queue.queued_bytes().checked_add(bytes) {
            Some(updated) => updated,
            None => return Err(ProtocolError::IntegerOverflow),
        };
        if updated > self.maximum_queued_bytes {
            return Err(ProtocolError::Backpressure);
        }
        Ok(())
    }

    pub fn can_enqueue_control(&self, bytes: usize) -> (result: Result<(), ProtocolError>)
        requires
            self.wf(),
        ensures
            result == self.control_check(bytes),
    {
        if self.queue.control_len() >= self.maximum_control_frames {
            return Err(ProtocolError::Backpressure);
        }
        self.reserve_global(bytes)
    }

    pub fn can_enqueue_stream(&self, stream_id: u64, bytes: usize) -> (result: Result<
        (),
        ProtocolError,
    >)
        requires
            self.wf(),
        ensures
            result == self.stream_check(stream_id, bytes),
    {
        self.reserve_global(bytes)?;
        let current = self.queue.stream_bytes(stream_id);
        let updated = match current.checked_add(bytes) {
            Some(updated) => updated,
            None => return Err(ProtocolError::IntegerOverflow),
        };
        if updated > self.maximum_queued_bytes_per_stream {
            return Err(ProtocolError::Backpressure);
        }
        Ok(())
    }

    /// Queues a control body, or refuses it without queueing anything.
    pub fn enqueue_control(&mut self, item: OutboundItem) -> (result: Result<(), ProtocolError>)
        requires
            old(self).wf(),
        ensures
            final(self).wf(),
            result == old(self).control_check(item.accounted_bytes),
            final(self).byte_budget() == old(self).byte_budget(),
            final(self).stream_budget() == old(self).stream_budget(),
            final(self).control_budget() == old(self).control_budget(),
            final(self).burst() == old(self).burst(),
            final(self).streams() == old(self).streams(),
            final(self).control() == if result is Ok {
                old(self).control().push((item.body, item.accounted_bytes))
            } else {
                old(self).control()
            },
            result is Ok ==> final(self).total() == old(self).total() + item.accounted_bytes,
            result is Err ==> final(self).total() == old(self).total(),
    {
        self.can_enqueue_control(item.accounted_bytes)?;
        let ghost r0 = self.queue.ring();
        self.queue.push_control(item.body, item.accounted_bytes);
        proof {
            assert forall|i: int| 0 <= i < self.queue.ring().len() implies bytes_of(
                #[trigger] self.queue.ring()[i].1,
            ) <= self.maximum_queued_bytes_per_stream by {
                assert(self.queue.ring()[i] == r0[i]);
            }
        }
        Ok(())
    }

    /// Queues a data body for `stream_id`, or refuses it without queueing
    /// anything.
    pub fn enqueue_stream(&mut self, stream_id: u64, item: OutboundItem) -> (result: Result<
        (),
        ProtocolError,
    >)
        requires
            old(self).wf(),
        ensures
            final(self).wf(),
            result == old(self).stream_check(stream_id, item.accounted_bytes),
            final(self).byte_budget() == old(self).byte_budget(),
            final(self).stream_budget() == old(self).stream_budget(),
            final(self).control_budget() == old(self).control_budget(),
            final(self).burst() == old(self).burst(),
            final(self).control() == old(self).control(),
            final(self).streams() == if result is Ok {
                ring_after_push(old(self).streams(), stream_id, (item.body, item.accounted_bytes))
            } else {
                old(self).streams()
            },
            result is Ok ==> final(self).total() == old(self).total() + item.accounted_bytes
                && stream_items(final(self).streams(), stream_id) == stream_items(
                old(self).streams(),
                stream_id,
            ).push((item.body, item.accounted_bytes)),
            result is Err ==> final(self).total() == old(self).total(),
    {
        self.can_enqueue_stream(stream_id, item.accounted_bytes)?;
        let bytes = item.accounted_bytes;
        let ghost r0 = self.queue.ring();
        let ghost entry = (item.body, bytes);
        proof {
            if has_stream(r0, stream_id) {
                lemma_ring_remove(r0, stream_index(r0, stream_id));
            }
        }
        self.queue.push_stream(stream_id, item.body, bytes);
        proof {
            if has_stream(r0, stream_id) {
                let k = stream_index(r0, stream_id);
                lemma_bytes_push(r0[k].1, entry);
            } else {
                lemma_bytes_single(entry);
            }
            assert forall|i: int| 0 <= i < self.queue.ring().len() implies bytes_of(
                #[trigger] self.queue.ring()[i].1,
            ) <= self.maximum_queued_bytes_per_stream by {
                if has_stream(r0, stream_id) {
                    let k = stream_index(r0, stream_id);
                    if i != k {
                        assert(self.queue.ring()[i] == r0[i]);
                    }
                } else if i < r0.len() {
                    assert(self.queue.ring()[i] == r0[i]);
                }
            }
        }
        Ok(())
    }

    /// Serves the next body as `pop_outcome` describes.
    pub fn pop_next(&mut self) -> (item: Option<OutboundItem>)
        requires
            old(self).wf(),
        ensures
            final(self).wf(),
            final(self).byte_budget() == old(self).byte_budget(),
            final(self).stream_budget() == old(self).stream_budget(),
            final(self).control_budget() == old(self).control_budget(),
            ({
                let (next, control, streams, burst) = pop_outcome(
                    old(self).control(),
                    old(self).streams(),
                    old(self).burst(),
                );
                &&& match (item, next) {
                    (Some(x), Some(entry)) => x.body == entry.0 && x.accounted_bytes == entry.1,
                    (None, None) => true,
                    _ => false,
                }
                &&& final(self).control() == control
                &&& final(self).streams() == streams
                &&& final(self).burst() == burst
            }),
    {
        let ghost r0 = self.queue.ring();
        let next = self.queue.pop_next();
        proof {
            assert forall|i: int| 0 <= i < self.queue.ring().len() implies bytes_of(
                #[trigger] self.queue.ring()[i].1,
            ) <= self.maximum_queued_bytes_per_stream by {
                if self.queue.ring() == r0 {
                } else if i + 1 < r0.len() {
                    assert(self.queue.ring()[i] == r0[i + 1]);
                } else {
                    assert(self.queue.ring()[i] == (r0[0].0, r0[0].1.drop_first()));
                    lemma_bytes_drop_first(r0[0].1);
                }
            }
        }
        match next {
            Some(entry) => Some(OutboundItem { body: entry.0, accounted_bytes: entry.1 }),
            None => None,
        }
    }

    /// Drops everything queued for `stream_id`.
    pub fn cancel_stream(&mut self, stream_id: u64)
        requires
            old(self).wf(),
        ensures
            final(self).wf(),
            final(self).byte_budget() == old(self).byte_budget(),
            final(self).stream_budget() == old(self).stream_budget(),
            final(self).control_budget() == old(self).control_budget(),
            final(self).control() == old(self).control(),
            final(self).streams() == ring_after_cancel(old(self).streams(), stream_id),
            final(self).burst() == old(self).burst(),
            final(self).total() <= old(self).total(),
    {
        let ghost r0 = self.queue.ring();
        proof {
            assert(forall|j: int| 0 <= j < r0.len() ==> bytes_of(#[trigger] r0[j].1)
                <= self.maximum_queued_bytes_per_stream);
        }
        self.queue.cancel(stream_id);
        proof {
            if has_stream(r0, stream_id) {
                lemma_ring_remove(r0, stream_index(r0, stream_id));
            }
            assert forall|i: int| 0 <= i < self.queue.ring().len() implies bytes_of(
                #[trigger] self.queue.ring()[i].1,
            ) <= self.maximum_queued_bytes_per_stream by {
                if has_stream(r0, stream_id) {
                    let k = stream_index(r0, stream_id);
                    assert(self.queue.ring() == r0.remove(k));
                    if i < k {
                        assert(self.queue.ring()[i] == r0[i]);
                    } else {
                        assert(self.queue.ring()[i] == r0[i + 1]);
                    }
                } else {
                    assert(self.queue.ring()[i] == r0[i]);
                }
            }
        }
    }
}

} // verus!
