//! The bounded outbound queue shared by the gateway scheduler and the relay
//! multiplexer: a FIFO of control items and a one-item round-robin across
//! per-stream FIFOs, with a bounded control burst while data waits.
use std::collections::VecDeque;

use vstd::prelude::*;

verus! {

/// Control items served in a row before a waiting stream gets its turn.
pub const CONTROL_BURST: usize = 8;

/// The sum of a sequence of naturals.
pub open spec fn seq_sum(s: Seq<nat>) -> nat
    decreases s.len(),
{
    if s.len() == 0 {
        0
    } else {
        s[0] + seq_sum(s.drop_first())
    }
}

pub proof fn lemma_sum_push(s: Seq<nat>, x: nat)
    ensures
        seq_sum(s.push(x)) == seq_sum(s) + x,
    decreases s.len(),
{
    if s.len() > 0 {
        assert(s.push(x).drop_first() =~= s.drop_first().push(x));
        lemma_sum_push(s.drop_first(), x);
    } else {
        assert(s.push(x).drop_first() =~= Seq::<nat>::empty());
        assert(seq_sum(s.push(x).drop_first()) == 0);
        assert(seq_sum(s) == 0);
    }
}

pub proof fn lemma_sum_remove(s: Seq<nat>, i: int)
    requires
        0 <= i < s.len(),
    ensures
        seq_sum(s.remove(i)) + s[i] == seq_sum(s),
    decreases s.len(),
{
    if i == 0 {
        assert(s.remove(0) =~= s.drop_first());
    } else {
        assert(s.remove(i).drop_first() =~= s.drop_first().remove(i - 1));
        lemma_sum_remove(s.drop_first(), i - 1);
    }
}

pub proof fn lemma_sum_update(s: Seq<nat>, i: int, v: nat)
    requires
        0 <= i < s.len(),
    ensures
        seq_sum(s.update(i, v)) + s[i] == seq_sum(s) + v,
    decreases s.len(),
{
    if i == 0 {
        assert(s.update(0, v).drop_first() =~= s.drop_first());
    } else {
        assert(s.update(i, v).drop_first() =~= s.drop_first().update(i - 1, v));
        lemma_sum_update(s.drop_first(), i - 1, v);
    }
}

/// The accounted bytes of a sequence of queued items.
pub open spec fn bytes_of<T>(s: Seq<(T, usize)>) -> nat {
    seq_sum(s.map_values(|x: (T, usize)| x.1 as nat))
}

/// The accounted bytes of all per-stream queues.
pub open spec fn ring_bytes<T>(r: Seq<(u64, Seq<(T, usize)>)>) -> nat {
    seq_sum(r.map_values(|e: (u64, Seq<(T, usize)>)| bytes_of(e.1)))
}

pub proof fn lemma_bytes_push<T>(s: Seq<(T, usize)>, x: (T, usize))
    ensures
        bytes_of(s.push(x)) == bytes_of(s) + x.1,
{
    let f = |x: (T, usize)| x.1 as nat;
    assert(s.push(x).map_values(f) =~= s.map_values(f).push(x.1 as nat));
    lemma_sum_push(s.map_values(f), x.1 as nat);
}

pub proof fn lemma_bytes_drop_first<T>(s: Seq<(T, usize)>)
    requires
        s.len() > 0,
    ensures
        bytes_of(s) == s[0].1 + bytes_of(s.drop_first()),
{
    let f = |x: (T, usize)| x.1 as nat;
    assert(s.map_values(f).drop_first() =~= s.drop_first().map_values(f));
}

pub proof fn lemma_bytes_single<T>(x: (T, usize))
    ensures
        bytes_of(seq![x]) == x.1,
{
    lemma_bytes_push(Seq::<(T, usize)>::empty(), x);
    assert(Seq::<(T, usize)>::empty().push(x) =~= seq![x]);
}

pub proof fn lemma_ring_push<T>(r: Seq<(u64, Seq<(T, usize)>)>, e: (u64, Seq<(T, usize)>))
    ensures
        ring_bytes(r.push(e)) == ring_bytes(r) + bytes_of(e.1),
{
    let f = |e: (u64, Seq<(T, usize)>)| bytes_of(e.1);
    assert(r.push(e).map_values(f) =~= r.map_values(f).push(bytes_of(e.1)));
    lemma_sum_push(r.map_values(f), bytes_of(e.1));
}

pub proof fn lemma_ring_remove<T>(r: Seq<(u64, Seq<(T, usize)>)>, i: int)
    requires
        0 <= i < r.len(),
    ensures
        ring_bytes(r.remove(i)) + bytes_of(r[i].1) == ring_bytes(r),
{
    let f = |e: (u64, Seq<(T, usize)>)| bytes_of(e.1);
    assert(r.remove(i).map_values(f) =~= r.map_values(f).remove(i));
    lemma_sum_remove(r.map_values(f), i);
}

pub proof fn lemma_ring_update<T>(
    r: Seq<(u64, Seq<(T, usize)>)>,
    i: int,
    e: (u64, Seq<(T, usize)>),
)
    requires
        0 <= i < r.len(),
    ensures
        ring_bytes(r.update(i, e)) + bytes_of(r[i].1) == ring_bytes(r) + bytes_of(e.1),
{
    let f = |e: (u64, Seq<(T, usize)>)| bytes_of(e.1);
    assert(r.update(i, e).map_values(f) =~= r.map_values(f).update(i, bytes_of(e.1)));
    lemma_sum_update(r.map_values(f), i, bytes_of(e.1));
}

pub proof fn lemma_ring_drop_first<T>(r: Seq<(u64, Seq<(T, usize)>)>)
    requires
        r.len() > 0,
    ensures
        ring_bytes(r) == bytes_of(r[0].1) + ring_bytes(r.drop_first()),
{
    let f = |e: (u64, Seq<(T, usize)>)| bytes_of(e.1);
    assert(r.map_values(f).drop_first() =~= r.drop_first().map_values(f));
}

/// No stream appears twice in the ring and no stream queue is empty.
pub open spec fn ring_valid<T>(r: Seq<(u64, Seq<(T, usize)>)>) -> bool {
    &&& forall|i: int, j: int| 0 <= i < j < r.len() ==> #[trigger] r[i].0 != #[trigger] r[j].0
    &&& forall|i: int| 0 <= i < r.len() ==> #[trigger] r[i].1.len() > 0
}

pub open spec fn has_stream<T>(r: Seq<(u64, Seq<(T, usize)>)>, id: u64) -> bool {
    exists|i: int| 0 <= i < r.len() && #[trigger] r[i].0 == id
}

/// The position of stream `id` in the ring, when it is there.
pub open spec fn stream_index<T>(r: Seq<(u64, Seq<(T, usize)>)>, id: u64) -> int {
    choose|i: int| 0 <= i < r.len() && #[trigger] r[i].0 == id
}

/// The items queued for stream `id`.
pub open spec fn stream_items<T>(r: Seq<(u64, Seq<(T, usize)>)>, id: u64) -> Seq<(T, usize)> {
    if has_stream(r, id) {
        r[stream_index(r, id)].1
    } else {
        Seq::empty()
    }
}

/// The ring after `x` is queued for stream `id`: appended to its queue, or a
/// new queue at the back of the ring.
pub open spec fn ring_after_push<T>(r: Seq<(u64, Seq<(T, usize)>)>, id: u64, x: (T, usize)) -> Seq<
    (u64, Seq<(T, usize)>),
> {
    if has_stream(r, id) {
        r.update(stream_index(r, id), (id, r[stream_index(r, id)].1.push(x)))
    } else {
        r.push((id, seq![x]))
    }
}

/// Queueing `x` for stream `id` makes it the last of that stream's items.
pub proof fn lemma_stream_items_after_push<T>(r: Seq<(u64, Seq<(T, usize)>)>, id: u64, x: (T, usize))
    requires
        ring_valid(r),
    ensures
        stream_items(ring_after_push(r, id, x), id) == stream_items(r, id).push(x),
{
    let n = ring_after_push(r, id, x);
    if has_stream(r, id) {
        let k = stream_index(r, id);
        assert(n[k].0 == id);
        assert(has_stream(n, id));
        let j = stream_index(n, id);
        if j != k {
            assert(n[j] == r[j]);
            if j < k {
                assert(r[j].0 != r[k].0);
            } else {
                assert(r[k].0 != r[j].0);
            }
        }
    } else {
        assert(n[r.len() as int].0 == id);
        assert(has_stream(n, id));
        let j = stream_index(n, id);
        if j < r.len() {
            assert(n[j] == r[j]);
            assert(r[j].0 == id);
        }
        assert(Seq::<(T, usize)>::empty().push(x) =~= seq![x]);
    }
}

/// The ring without stream `id`.
pub open spec fn ring_after_cancel<T>(r: Seq<(u64, Seq<(T, usize)>)>, id: u64) -> Seq<
    (u64, Seq<(T, usize)>),
> {
    if has_stream(r, id) {
        r.remove(stream_index(r, id))
    } else {
        r
    }
}

/// Serving the next item: a control item while the burst allows it or no
/// stream waits; else the head of the first stream's queue, after which that
/// stream moves to the back of the ring if it still has items.
pub open spec fn pop_outcome<T>(
    control: Seq<(T, usize)>,
    r: Seq<(u64, Seq<(T, usize)>)>,
    burst: usize,
) -> (Option<(T, usize)>, Seq<(T, usize)>, Seq<(u64, Seq<(T, usize)>)>, usize) {
    if control.len() > 0 && (burst < CONTROL_BURST || r.len() == 0) {
        (
            Some(control[0]),
            control.drop_first(),
            r,
            if burst < usize::MAX {
                (burst + 1) as usize
            } else {
                burst
            },
        )
    } else if r.len() > 0 {
        let (id, q) = r[0];
        (
            Some(q[0]),
            control,
            if q.len() > 1 {
                r.drop_first().push((id, q.drop_first()))
            } else {
                r.drop_first()
            },
            0,
        )
    } else {
        (None, control, r, burst)
    }
}

struct StreamQueue<T> {
    id: u64,
    items: VecDeque<(T, usize)>,
    bytes: usize,
}

/// A control FIFO plus a ring of per-stream FIFOs, each item with its
/// accounted byte size.
pub struct FairQueue<T> {
    control: VecDeque<(T, usize)>,
    ring: VecDeque<StreamQueue<T>>,
    queued_bytes: usize,
    control_burst: usize,
}

impl<T> FairQueue<T> {
    pub closed spec fn control_items(&self) -> Seq<(T, usize)> {
        self.control@
    }

    /// The streams with queued items, in service order, each with its items.
    pub closed spec fn ring(&self) -> Seq<(u64, Seq<(T, usize)>)> {
        self.ring@.map_values(|q: StreamQueue<T>| (q.id, q.items@))
    }

    /// Control items served since data was last served.
    pub closed spec fn burst(&self) -> usize {
        self.control_burst
    }

    /// All accounted bytes held.
    pub open spec fn total(&self) -> nat {
        bytes_of(self.control_items()) + ring_bytes(self.ring())
    }

    pub closed spec fn wf(&self) -> bool {
        &&& ring_valid(self.ring())
        &&& forall|i: int|
            0 <= i < self.ring@.len() ==> #[trigger] self.ring@[i].bytes == bytes_of(
                self.ring@[i].items@,
            )
        &&& self.queued_bytes == self.total()
    }

    proof fn lemma_stream_bytes(&self, i: int)
        requires
            self.wf(),
            0 <= i < self.ring@.len(),
        ensures
            self.ring()[i] == (self.ring@[i].id, self.ring@[i].items@),
            self.ring@[i].bytes <= self.total(),
            self.ring@[i].bytes <= ring_bytes(self.ring()),
    {
        lemma_ring_remove(self.ring(), i);
    }

    pub fn new() -> (queue: Self)
        ensures
            queue.wf(),
            queue.control_items() == Seq::<(T, usize)>::empty(),
            queue.ring() == Seq::<(u64, Seq<(T, usize)>)>::empty(),
            queue.burst() == 0,
            queue.total() == 0,
    {
        let queue = FairQueue {
            control: VecDeque::new(),
            ring: VecDeque::new(),
            queued_bytes: 0,
            control_burst: 0,
        };
        proof {
            assert(queue.ring() =~= Seq::<(u64, Seq<(T, usize)>)>::empty());
            assert(queue.control_items().map_values(|x: (T, usize)| x.1 as nat) =~= Seq::<
                nat,
            >::empty());
            assert(queue.ring().map_values(|e: (u64, Seq<(T, usize)>)| bytes_of(e.1)) =~= Seq::<
                nat,
            >::empty());
        }
        queue
    }

    pub fn queued_bytes(&self) -> (bytes: usize)
        requires
            self.wf(),
        ensures
            bytes == self.total(),
    {
        self.queued_bytes
    }

    pub fn control_len(&self) -> (count: usize)
        ensures
            count == self.control_items().len(),
    {
        self.control.len()
    }

    /// The ring index of stream `id`, if it has queued items.
    fn find(&self, id: u64) -> (found: Option<usize>)
        requires
            self.wf(),
        ensures
            match found {
                Some(i) => i < self.ring@.len() && self.ring@[i as int].id == id && has_stream(
                    self.ring(),
                    id,
                ) && stream_index(self.ring(), id) == i,
                None => !has_stream(self.ring(), id),
            },
    {
        let mut i: usize = 0;
        while i < self.ring.len()
            invariant
                self.wf(),
                i <= self.ring@.len(),
                forall|j: int| 0 <= j < i ==> #[trigger] self.ring()[j].0 != id,
            decreases self.ring@.len() - i,
        {
            if self.ring[i].id == id {
                proof {
                    assert(self.ring()[i as int].0 == id);
                    let k = stream_index(self.ring(), id);
                    if k != i {
                        if k < i {
                            assert(self.ring()[k].0 != self.ring()[i as int].0);
                        } else {
                            assert(self.ring()[i as int].0 != self.ring()[k].0);
                        }
                    }
                }
                return Some(i);
            }
            i = i + 1;
        }
        None
    }

    /// The accounted bytes queued for stream `id`.
    pub fn stream_bytes(&self, id: u64) -> (bytes: usize)
        requires
            self.wf(),
        ensures
            bytes == bytes_of(stream_items(self.ring(), id)),
    {
        match self.find(id) {
            Some(i) => {
                proof {
                    self.lemma_stream_bytes(i as int);
                }
                self.ring[i].bytes
            },
            None => 0,
        }
    }

    pub fn push_control(&mut self, item: T, bytes: usize)
        requires
            old(self).wf(),
            old(self).total() + bytes <= usize::MAX,
        ensures
            final(self).wf(),
            final(self).control_items() == old(self).control_items().push((item, bytes)),
            final(self).ring() == old(self).ring(),
            final(self).burst() == old(self).burst(),
            final(self).total() == old(self).total() + bytes,
    {
        proof {
            lemma_bytes_push(self.control@, (item, bytes));
        }
        self.control.push_back((item, bytes));
        self.queued_bytes = self.queued_bytes + bytes;
    }

    pub fn push_stream(&mut self, id: u64, item: T, bytes: usize)
        requires
            old(self).wf(),
            old(self).total() + bytes <= usize::MAX,
        ensures
            final(self).wf(),
            final(self).control_items() == old(self).control_items(),
            final(self).ring() == ring_after_push(old(self).ring(), id, (item, bytes)),
            stream_items(final(self).ring(), id) == stream_items(old(self).ring(), id).push(
                (item, bytes),
            ),
            final(self).burst() == old(self).burst(),
            final(self).total() == old(self).total() + bytes,
    {
        let ghost r0 = self.ring();
        proof {
            lemma_stream_items_after_push(r0, id, (item, bytes));
        }
        match self.find(id) {
            Some(i) => {
                proof {
                    self.lemma_stream_bytes(i as int);
                }
                let mut entry = match self.ring.remove(i) {
                    Some(entry) => entry,
                    None => {
                        proof {
                            assert(false);
                        }
                        return;
                    },
                };
                proof {
                    lemma_bytes_push(entry.items@, (item, bytes));
                }
                entry.items.push_back((item, bytes));
                entry.bytes = entry.bytes + bytes;
                let ghost e = entry;
                self.ring.insert(i, entry);
                proof {
                    assert(self.ring@ =~= old(self).ring@.update(i as int, e));
                    assert(self.ring() =~= r0.update(i as int, (id, r0[i as int].1.push((item, bytes)))));
                    lemma_ring_update(r0, i as int, (id, r0[i as int].1.push((item, bytes))));
                    assert forall|a: int, b: int| 0 <= a < b < self.ring().len() implies #[trigger] self.ring()[a].0
                        != #[trigger] self.ring()[b].0 by {
                        assert(r0[a].0 != r0[b].0);
                    }
                    assert forall|a: int| 0 <= a < self.ring@.len() implies #[trigger] self.ring@[a].bytes
                        == bytes_of(self.ring@[a].items@) by {
                        if a != i {
                            assert(self.ring@[a] == old(self).ring@[a]);
                        }
                    }
                }
            },
            None => {
                let mut items: VecDeque<(T, usize)> = VecDeque::new();
                items.push_back((item, bytes));
                proof {
                    assert(items@ =~= seq![(item, bytes)]);
                    lemma_bytes_single((item, bytes));
                    lemma_ring_push(r0, (id, seq![(item, bytes)]));
                }
                self.ring.push_back(StreamQueue { id, items, bytes });
                proof {
                    assert(self.ring() =~= r0.push((id, seq![(item, bytes)])));
                    assert forall|a: int, b: int| 0 <= a < b < self.ring().len() implies #[trigger] self.ring()[a].0
                        != #[trigger] self.ring()[b].0 by {
                        if b < r0.len() {
                            assert(r0[a].0 != r0[b].0);
                        } else {
                            assert(r0[a].0 == self.ring()[a].0);
                        }
                    }
                    assert forall|a: int| 0 <= a < self.ring@.len() implies #[trigger] self.ring@[a].bytes
                        == bytes_of(self.ring@[a].items@) by {
                        if a < r0.len() {
                            assert(self.ring@[a] == old(self).ring@[a]);
                        }
                    }
                }
            },
        }
        self.queued_bytes = self.queued_bytes + bytes;
    }
}


impl<T> FairQueue<T> {
    /// Serves the next item as `pop_outcome` describes.
    pub fn pop_next(&mut self) -> (item: Option<(T, usize)>)
        requires
            old(self).wf(),
        ensures
            final(self).wf(),
            ({
                let (next, control, ring, burst) = pop_outcome(
                    old(self).control_items(),
                    old(self).ring(),
                    old(self).burst(),
                );
                &&& item == next
                &&& final(self).control_items() == control
                &&& final(self).ring() == ring
                &&& final(self).burst() == burst
            }),
            match item {
                Some(x) => final(self).total() + x.1 == old(self).total(),
                None => final(self).total() == old(self).total(),
            },
    {
        let ghost r0 = self.ring();
        if self.control.len() > 0 && (self.control_burst < CONTROL_BURST || self.ring.len() == 0) {
            if self.control_burst < usize::MAX {
                self.control_burst = self.control_burst + 1;
            }
            proof {
                lemma_bytes_drop_first(self.control@);
            }
            let item = self.control.pop_front();
            if let Some(x) = &item {
                self.queued_bytes = self.queued_bytes - x.1;
            }
            return item;
        }
        if self.ring.len() > 0 {
            proof {
                self.lemma_stream_bytes(0);
                lemma_ring_drop_first(r0);
            }
            let mut entry = match self.ring.pop_front() {
                Some(entry) => entry,
                None => {
                    proof {
                        assert(false);
                    }
                    return None;
                },
            };
            proof {
                assert(self.ring() =~= r0.drop_first());
                lemma_bytes_drop_first(entry.items@);
            }
            let item = match entry.items.pop_front() {
                Some(x) => x,
                None => {
                    proof {
                        assert(false);
                    }
                    return None;
                },
            };
            entry.bytes = entry.bytes - item.1;
            self.queued_bytes = self.queued_bytes - item.1;
            self.control_burst = 0;
            if entry.items.len() > 0 {
                let ghost e = entry;
                proof {
                    lemma_ring_push(r0.drop_first(), (e.id, e.items@));
                }
                self.ring.push_back(entry);
                proof {
                    assert(self.ring() =~= r0.drop_first().push((r0[0].0, r0[0].1.drop_first())));
                    assert forall|a: int, b: int| 0 <= a < b < self.ring().len() implies #[trigger] self.ring()[a].0
                        != #[trigger] self.ring()[b].0 by {
                        assert(r0[a + 1].0 != r0[b + 1].0 || b + 1 == r0.len());
                        if b + 1 == r0.len() {
                            assert(r0[0].0 != r0[a + 1].0);
                        }
                    }
                    assert forall|a: int| 0 <= a < self.ring@.len() implies #[trigger] self.ring@[a].bytes
                        == bytes_of(self.ring@[a].items@) by {
                        if a + 1 < old(self).ring@.len() {
                            assert(self.ring@[a] == old(self).ring@[a + 1]);
                        }
                    }
                }
            } else {
                proof {
                    assert forall|a: int, b: int| 0 <= a < b < self.ring().len() implies #[trigger] self.ring()[a].0
                        != #[trigger] self.ring()[b].0 by {
                        assert(r0[a + 1].0 != r0[b + 1].0);
                    }
                    assert forall|a: int| 0 <= a < self.ring@.len() implies #[trigger] self.ring@[a].bytes
                        == bytes_of(self.ring@[a].items@) by {
                        assert(self.ring@[a] == old(self).ring@[a + 1]);
                    }
                    assert(entry.items@.len() == 0);
                    assert(entry.items@ =~= Seq::<(T, usize)>::empty());
                }
            }
            return Some(item);
        }
        proof {
            assert(self.control@.len() == 0);
        }
        None
    }

    /// Drops everything queued for stream `id`.
    pub fn cancel(&mut self, id: u64)
        requires
            old(self).wf(),
        ensures
            final(self).wf(),
            final(self).control_items() == old(self).control_items(),
            final(self).ring() == ring_after_cancel(old(self).ring(), id),
            final(self).burst() == old(self).burst(),
            final(self).total() + bytes_of(stream_items(old(self).ring(), id)) == old(self).total(),
    {
        let ghost r0 = self.ring();
        if let Some(i) = self.find(id) {
            proof {
                self.lemma_stream_bytes(i as int);
                lemma_ring_remove(r0, i as int);
            }
            let removed = match self.ring.remove(i) {
                Some(entry) => entry.bytes,
                None => 0,
            };
            self.queued_bytes = self.queued_bytes - removed;
            proof {
                assert(self.ring() =~= r0.remove(i as int));
                assert forall|a: int, b: int| 0 <= a < b < self.ring().len() implies #[trigger] self.ring()[a].0
                    != #[trigger] self.ring()[b].0 by {
                    let sa = if a < i { a } else { a + 1 };
                    let sb = if b < i { b } else { b + 1 };
                    assert(self.ring()[a] == r0[sa] && self.ring()[b] == r0[sb]);
                    assert(r0[sa].0 != r0[sb].0);
                }
                assert forall|a: int| 0 <= a < self.ring@.len() implies #[trigger] self.ring@[a].bytes
                    == bytes_of(self.ring@[a].items@) by {
                    if a < i {
                        assert(self.ring@[a] == old(self).ring@[a]);
                    } else {
                        assert(self.ring@[a] == old(self).ring@[a + 1]);
                    }
                }
            }
        }
    }
}

/// Control cannot starve data: once a burst of control items has been served
/// while a stream waits, the next item served is that stream's, and the
/// stream then goes to the back of the ring if it still has items.
pub proof fn lemma_burst_yields_to_data<T>(
    control: Seq<(T, usize)>,
    r: Seq<(u64, Seq<(T, usize)>)>,
    burst: usize,
)
    requires
        ring_valid(r),
        r.len() > 0,
        burst >= CONTROL_BURST,
    ensures
        ({
            let (next, rest_control, ring, new_burst) = pop_outcome(control, r, burst);
            &&& next == Some(r[0].1[0])
            &&& rest_control == control
            &&& new_burst == 0
            &&& ring == if r[0].1.len() > 1 {
                r.drop_first().push((r[0].0, r[0].1.drop_first()))
            } else {
                r.drop_first()
            }
        }),
{
}

/// Every pop serves control only within the burst or when no stream waits,
/// and counts the burst up; serving data resets it.
pub proof fn lemma_burst_bounded<T>(
    control: Seq<(T, usize)>,
    r: Seq<(u64, Seq<(T, usize)>)>,
    burst: usize,
)
    requires
        ring_valid(r),
    ensures
        ({
            let (next, rest_control, ring, new_burst) = pop_outcome(control, r, burst);
            &&& r.len() > 0 && burst < CONTROL_BURST ==> new_burst <= CONTROL_BURST
            &&& next is None <==> control.len() == 0 && r.len() == 0
        }),
{
}

} // verus!
