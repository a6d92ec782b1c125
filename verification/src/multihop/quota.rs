//! Per-entry data-plane quotas and drain admission. Times are milliseconds on
//! the caller's monotonic clock.
use vstd::prelude::*;

use crate::multihop::error::{Error, ErrorCode};
use crate::multihop::identity::PeerIdentity;

verus! {

#[derive(Clone, Copy, Debug)]
pub struct EntryQuotaLimits {
    pub maximum_entries: usize,
    pub maximum_connections_per_entry: usize,
    pub maximum_sessions_per_entry: usize,
    pub bytes_per_second: u64,
    pub burst_bytes: u64,
}

impl Default for EntryQuotaLimits {
    fn default() -> (limits: Self)
        ensures
            limits.maximum_entries == 1024,
            limits.maximum_connections_per_entry == 8,
            limits.maximum_sessions_per_entry == 2048,
            limits.bytes_per_second == 104857600,
            limits.burst_bytes == 20971520,
    {
        EntryQuotaLimits {
            maximum_entries: 1024,
            maximum_connections_per_entry: 8,
            maximum_sessions_per_entry: 2048,
            bytes_per_second: 104857600,
            burst_bytes: 20971520,
        }
    }
}

/// Every limit is positive.
pub open spec fn quota_limits_valid(limits: EntryQuotaLimits) -> bool {
    &&& limits.maximum_entries > 0
    &&& limits.maximum_connections_per_entry > 0
    &&& limits.maximum_sessions_per_entry > 0
    &&& limits.bytes_per_second > 0
    &&& limits.burst_bytes > 0
}

/// The accounting of one entry gateway.
#[derive(Clone, Copy, Debug, PartialEq, Eq, Structural)]
pub struct EntryUsage {
    pub connections: usize,
    pub sessions: usize,
    pub available_bytes: u64,
    pub last_refill_ms: u64,
}

/// The bytes a token bucket regains after `elapsed_ms`: the rate times the
/// time, capped at `u64::MAX`; nothing before 10 ms have passed.
pub open spec fn refill_amount(bytes_per_second: u64, elapsed_ms: u64) -> u64 {
    let added = bytes_per_second * elapsed_ms / 1000;
    if added > u64::MAX { u64::MAX } else { added as u64 }
}

/// An entry's usage after refilling at `now_ms`.
pub open spec fn refilled(usage: EntryUsage, limits: EntryQuotaLimits, now_ms: u64) -> EntryUsage {
    let elapsed = if now_ms >= usage.last_refill_ms { (now_ms - usage.last_refill_ms) as u64 } else { 0 };
    if elapsed < 10 {
        usage
    } else {
        let sum = usage.available_bytes + refill_amount(limits.bytes_per_second, elapsed);
        let saturated = if sum > u64::MAX { u64::MAX } else { sum as u64 };
        EntryUsage {
            available_bytes: if saturated <= limits.burst_bytes { saturated } else { limits.burst_bytes },
            last_refill_ms: now_ms,
            ..usage
        }
    }
}

/// Per-entry connection, session and byte quotas, keyed by the entry's
/// service ID. An entry is forgotten once it holds no connection and no
/// session.
pub struct EntryQuotaManager {
    limits: EntryQuotaLimits,
    entries: Vec<(String, EntryUsage)>,
    draining: bool,
}

/// The index of an entry's record, by service ID.
pub open spec fn entry_index(entries: Seq<(String, EntryUsage)>, service_id: Seq<char>) -> Option<int> {
    if exists|i: int| 0 <= i < entries.len() && #[trigger] entries[i].0@ == service_id {
        Some(choose|i: int| 0 <= i < entries.len() && #[trigger] entries[i].0@ == service_id)
    } else {
        None
    }
}

pub open spec fn ids_distinct(entries: Seq<(String, EntryUsage)>) -> bool {
    forall|i: int, j: int|
        0 <= i < entries.len() && 0 <= j < entries.len() && i != j ==> #[trigger] entries[i].0@
            != #[trigger] entries[j].0@
}

/// The quota records, as a map from service ID to usage.
pub open spec fn usage_map(entries: Seq<(String, EntryUsage)>) -> Map<Seq<char>, EntryUsage> {
    Map::new(
        |id: Seq<char>| exists|i: int| 0 <= i < entries.len() && #[trigger] entries[i].0@ == id,
        |id: Seq<char>| entries[choose|i: int| 0 <= i < entries.len() && #[trigger] entries[i].0@ == id].1,
    )
}

proof fn lemma_usage_entry(entries: Seq<(String, EntryUsage)>, i: int)
    requires
        ids_distinct(entries),
        0 <= i < entries.len(),
    ensures
        usage_map(entries).contains_key(entries[i].0@),
        usage_map(entries)[entries[i].0@] == entries[i].1,
{
    let id = entries[i].0@;
    assert(exists|k: int| 0 <= k < entries.len() && #[trigger] entries[k].0@ == id) by {
        assert(entries[i].0@ == id);
    }
    let j = choose|k: int| 0 <= k < entries.len() && #[trigger] entries[k].0@ == id;
    if j != i {
        assert(entries[i].0@ != entries[j].0@);
    }
}

proof fn lemma_usage_update(entries: Seq<(String, EntryUsage)>, i: int, usage: EntryUsage)
    requires
        ids_distinct(entries),
        0 <= i < entries.len(),
    ensures
        ids_distinct(entries.update(i, (entries[i].0, usage))),
        usage_map(entries.update(i, (entries[i].0, usage))) == usage_map(entries).insert(entries[i].0@, usage),
{
    let t = entries.update(i, (entries[i].0, usage));
    assert forall|a: int, b: int| 0 <= a < t.len() && 0 <= b < t.len() && a != b implies #[trigger] t[a].0@
        != #[trigger] t[b].0@ by {
        assert(entries[a].0@ != entries[b].0@);
    }
    let m = usage_map(entries).insert(entries[i].0@, usage);
    assert forall|id: Seq<char>| #[trigger] usage_map(t).contains_key(id) <==> m.contains_key(id) by {
        if exists|k: int| 0 <= k < entries.len() && #[trigger] entries[k].0@ == id {
            let k = choose|k: int| 0 <= k < entries.len() && #[trigger] entries[k].0@ == id;
            assert(t[k].0@ == id);
        }
        if exists|k: int| 0 <= k < t.len() && #[trigger] t[k].0@ == id {
            let k = choose|k: int| 0 <= k < t.len() && #[trigger] t[k].0@ == id;
            assert(entries[k].0@ == id);
        }
        assert(t[i].0@ == entries[i].0@);
        lemma_usage_entry(entries, i);
    }
    assert forall|id: Seq<char>| #[trigger] usage_map(t).contains_key(id) implies usage_map(t)[id] == m[id] by {
        let k = choose|k: int| 0 <= k < t.len() && #[trigger] t[k].0@ == id;
        lemma_usage_entry(t, k);
        if k != i {
            lemma_usage_entry(entries, k);
        }
    }
    assert(usage_map(t) =~= m);
}

proof fn lemma_usage_push(entries: Seq<(String, EntryUsage)>, id: String, usage: EntryUsage)
    requires
        ids_distinct(entries),
        !usage_map(entries).contains_key(id@),
    ensures
        ids_distinct(entries.push((id, usage))),
        usage_map(entries.push((id, usage))) == usage_map(entries).insert(id@, usage),
{
    let t = entries.push((id, usage));
    assert forall|a: int| 0 <= a < entries.len() implies #[trigger] entries[a].0@ != id@ by {
        if entries[a].0@ == id@ {
            assert(usage_map(entries).contains_key(id@));
        }
    }
    assert forall|a: int, b: int| 0 <= a < t.len() && 0 <= b < t.len() && a != b implies #[trigger] t[a].0@
        != #[trigger] t[b].0@ by {
        if a < entries.len() && b < entries.len() {
            assert(entries[a].0@ != entries[b].0@);
        } else if a < entries.len() {
            assert(entries[a].0@ != id@);
        } else {
            assert(entries[b].0@ != id@);
        }
    }
    let m = usage_map(entries).insert(id@, usage);
    assert forall|key: Seq<char>| #[trigger] usage_map(t).contains_key(key) <==> m.contains_key(key) by {
        if exists|k: int| 0 <= k < entries.len() && #[trigger] entries[k].0@ == key {
            let k = choose|k: int| 0 <= k < entries.len() && #[trigger] entries[k].0@ == key;
            assert(t[k].0@ == key);
        }
        if key == id@ {
            assert(t[entries.len() as int].0@ == key);
        }
        if exists|k: int| 0 <= k < t.len() && #[trigger] t[k].0@ == key {
            let k = choose|k: int| 0 <= k < t.len() && #[trigger] t[k].0@ == key;
            if k < entries.len() {
                assert(entries[k].0@ == key);
            }
        }
    }
    assert forall|key: Seq<char>| #[trigger] usage_map(t).contains_key(key) implies usage_map(t)[key] == m[key] by {
        let k = choose|k: int| 0 <= k < t.len() && #[trigger] t[k].0@ == key;
        lemma_usage_entry(t, k);
        if k < entries.len() {
            lemma_usage_entry(entries, k);
        }
    }
    assert(usage_map(t) =~= m);
}

proof fn lemma_usage_size(entries: Seq<(String, EntryUsage)>)
    requires
        ids_distinct(entries),
    ensures
        usage_map(entries).dom().finite(),
        usage_map(entries).dom().len() == entries.len(),
    decreases entries.len(),
{
    if entries.len() == 0 {
        assert(usage_map(entries).dom() =~= Set::<Seq<char>>::empty());
    } else {
        let rest = entries.drop_last();
        let last = entries.last();
        assert(ids_distinct(rest)) by {
            assert forall|a: int, b: int| 0 <= a < rest.len() && 0 <= b < rest.len() && a != b implies #[trigger] rest[a].0@
                != #[trigger] rest[b].0@ by {
                assert(entries[a].0@ != entries[b].0@);
            }
        }
        lemma_usage_size(rest);
        assert(!usage_map(rest).contains_key(last.0@)) by {
            if usage_map(rest).contains_key(last.0@) {
                let k = choose|k: int| 0 <= k < rest.len() && #[trigger] rest[k].0@ == last.0@;
                assert(entries[k].0@ != entries[entries.len() - 1].0@);
            }
        }
        lemma_usage_push(rest, last.0, last.1);
        assert(rest.push((last.0, last.1)) =~= entries);
    }
}

fn same_text(a: &String, b: &String) -> (same: bool)
    ensures
        same == (a@ == b@),
{
    let same = crate::text::bytes_equal(a.as_str().as_bytes(), b.as_str().as_bytes());
    proof {
        if same {
            vstd::utf8::encode_utf8_decode_utf8(a@);
            vstd::utf8::encode_utf8_decode_utf8(b@);
        }
    }
    same
}

impl EntryQuotaManager {
    pub closed spec fn limits_spec(&self) -> EntryQuotaLimits {
        self.limits
    }

    /// The usage of every entry gateway with a connection or session.
    pub closed spec fn usage(&self) -> Map<Seq<char>, EntryUsage> {
        usage_map(self.entries@)
    }

    pub closed spec fn draining_spec(&self) -> bool {
        self.draining
    }

    pub closed spec fn wf(&self) -> bool {
        ids_distinct(self.entries@) && quota_limits_valid(self.limits)
    }

    /// A manager with positive limits (`InvalidConfiguration` otherwise).
    pub fn new(limits: EntryQuotaLimits) -> (result: Result<Self, Error>)
        ensures
            result is Ok <==> quota_limits_valid(limits),
            result matches Ok(m) ==> m.wf() && m.limits_spec() == limits && m.usage() == Map::<
                Seq<char>,
                EntryUsage,
            >::empty() && !m.draining_spec(),
            result matches Err(e) ==> e.code == ErrorCode::InvalidConfiguration,
    {
        if limits.maximum_entries == 0 || limits.maximum_connections_per_entry == 0
            || limits.maximum_sessions_per_entry == 0 || limits.bytes_per_second == 0
            || limits.burst_bytes == 0 {
            return Err(Error::new(ErrorCode::InvalidConfiguration));
        }
        let m = EntryQuotaManager { limits, entries: Vec::new(), draining: false };
        proof {
            assert(m.usage() =~= Map::<Seq<char>, EntryUsage>::empty());
        }
        Ok(m)
    }

    pub fn set_draining(&mut self, draining: bool)
        ensures
            final(self).draining_spec() == draining,
            final(self).usage() == old(self).usage(),
            final(self).limits_spec() == old(self).limits_spec(),
            final(self).wf() == old(self).wf(),
    {
        self.draining = draining;
    }

    pub fn is_draining(&self) -> (draining: bool)
        ensures
            draining == self.draining_spec(),
    {
        self.draining
    }

    fn find(&self, service_id: &String) -> (index: Option<usize>)
        requires
            self.wf(),
        ensures
            index is None <==> !self.usage().contains_key(service_id@),
            index matches Some(i) ==> i < self.entries@.len() && self.entries@[i as int].0@ == service_id@
                && self.usage()[service_id@] == self.entries@[i as int].1,
    {
        let mut i: usize = 0;
        while i < self.entries.len()
            invariant
                self.wf(),
                i <= self.entries@.len(),
                forall|j: int| 0 <= j < i ==> #[trigger] self.entries@[j].0@ != service_id@,
            decreases self.entries@.len() - i,
        {
            if same_text(&self.entries[i].0, service_id) {
                proof {
                    lemma_usage_entry(self.entries@, i as int);
                }
                return Some(i);
            }
            i = i + 1;
        }
        None
    }

    /// Admits one more connection from an entry: refused while draining
    /// (`Draining`), for a new entry when the table is full, and beyond the
    /// per-entry connection limit (`ResourceExhausted`). A new entry starts
    /// with a full byte bucket.
    pub fn acquire_connection(&mut self, peer: &PeerIdentity, now_ms: u64) -> (result: Result<(), Error>)
        requires
            old(self).wf(),
        ensures
            final(self).wf(),
            final(self).limits_spec() == old(self).limits_spec(),
            final(self).draining_spec() == old(self).draining_spec(),
            ({
                let id = peer.service_id@;
                let limits = old(self).limits_spec();
                let known = old(self).usage().contains_key(id);
                let current = if known {
                    old(self).usage()[id]
                } else {
                    EntryUsage { connections: 0, sessions: 0, available_bytes: limits.burst_bytes, last_refill_ms: now_ms }
                };
                if old(self).draining_spec() {
                    result == Err::<(), Error>(Error { code: ErrorCode::Draining }) && final(self).usage() == old(self).usage()
                } else if !known && old(self).usage().dom().len() >= limits.maximum_entries {
                    result == Err::<(), Error>(Error { code: ErrorCode::ResourceExhausted }) && final(self).usage() == old(self).usage()
                } else if current.connections >= limits.maximum_connections_per_entry {
                    result == Err::<(), Error>(Error { code: ErrorCode::ResourceExhausted }) && final(self).usage() == old(self).usage()
                } else {
                    result is Ok && final(self).usage() == old(self).usage().insert(
                        id,
                        EntryUsage { connections: (current.connections + 1) as usize, ..current },
                    )
                }
            }),
    {
        if self.draining {
            return Err(Error::new(ErrorCode::Draining));
        }
        proof {
            lemma_usage_size(self.entries@);
        }
        let index = match self.find(&peer.service_id) {
            Some(i) => i,
            None => {
                if self.entries.len() >= self.limits.maximum_entries {
                    return Err(Error::new(ErrorCode::ResourceExhausted));
                }
                let fresh = EntryUsage {
                    connections: 0,
                    sessions: 0,
                    available_bytes: self.limits.burst_bytes,
                    last_refill_ms: now_ms,
                };
                proof {
                    lemma_usage_push(self.entries@, peer.service_id, fresh);
                }
                self.entries.push((peer.service_id.clone(), fresh));
                proof {
                    assert(self.entries@[self.entries@.len() - 1].0@ == peer.service_id@);
                }
                self.entries.len() - 1
            },
        };
        proof {
            lemma_usage_entry(self.entries@, index as int);
        }
        let usage = self.entries[index].1;
        if usage.connections >= self.limits.maximum_connections_per_entry {
            return Err(Error::new(ErrorCode::ResourceExhausted));
        }
        let updated = EntryUsage { connections: usage.connections + 1, ..usage };
        let name = self.entries[index].0.clone();
        proof {
            lemma_usage_update(self.entries@, index as int, updated);
        }
        self.entries.set(index, (name, updated));
        Ok(())
    }

    /// Admits one more session from an entry that holds a connection:
    /// refused while draining (`Draining`), for an unknown entry
    /// (`AuthenticationRejected`) and beyond the per-entry session limit
    /// (`ResourceExhausted`).
    pub fn acquire_session(&mut self, peer: &PeerIdentity) -> (result: Result<(), Error>)
        requires
            old(self).wf(),
        ensures
            final(self).wf(),
            final(self).limits_spec() == old(self).limits_spec(),
            final(self).draining_spec() == old(self).draining_spec(),
            ({
                let id = peer.service_id@;
                let current = old(self).usage()[id];
                if old(self).draining_spec() {
                    result == Err::<(), Error>(Error { code: ErrorCode::Draining })
                } else if !old(self).usage().contains_key(id) {
                    result == Err::<(), Error>(Error { code: ErrorCode::AuthenticationRejected })
                } else if current.sessions >= old(self).limits_spec().maximum_sessions_per_entry {
                    result == Err::<(), Error>(Error { code: ErrorCode::ResourceExhausted })
                } else {
                    result is Ok
                }
            }),
            result is Err ==> final(self).usage() == old(self).usage(),
            result is Ok ==> final(self).usage() == old(self).usage().insert(
                peer.service_id@,
                EntryUsage { sessions: (old(self).usage()[peer.service_id@].sessions + 1) as usize, ..old(self).usage()[peer.service_id@] },
            ),
    {
        if self.draining {
            return Err(Error::new(ErrorCode::Draining));
        }
        let index = match self.find(&peer.service_id) {
            Some(i) => i,
            None => {
                return Err(Error::new(ErrorCode::AuthenticationRejected));
            },
        };
        let usage = self.entries[index].1;
        if usage.sessions >= self.limits.maximum_sessions_per_entry {
            return Err(Error::new(ErrorCode::ResourceExhausted));
        }
        let updated = EntryUsage { sessions: usage.sessions + 1, ..usage };
        let name = self.entries[index].0.clone();
        proof {
            lemma_usage_update(self.entries@, index as int, updated);
        }
        self.entries.set(index, (name, updated));
        Ok(())
    }

    /// Charges relayed bytes to an entry after refilling its bucket: an
    /// unknown entry is `AuthenticationRejected`; more bytes than available
    /// is `Backpressure` (the refill still happens).
    pub fn charge_bytes(&mut self, peer: &PeerIdentity, bytes: usize, now_ms: u64) -> (result: Result<(), Error>)
        requires
            old(self).wf(),
        ensures
            final(self).wf(),
            final(self).limits_spec() == old(self).limits_spec(),
            final(self).draining_spec() == old(self).draining_spec(),
            ({
                let id = peer.service_id@;
                let current = refilled(old(self).usage()[id], old(self).limits_spec(), now_ms);
                if !old(self).usage().contains_key(id) {
                    result == Err::<(), Error>(Error { code: ErrorCode::AuthenticationRejected }) && final(self).usage()
                        == old(self).usage()
                } else if bytes > current.available_bytes {
                    result == Err::<(), Error>(Error { code: ErrorCode::Backpressure }) && final(self).usage()
                        == old(self).usage().insert(id, current)
                } else {
                    result is Ok && final(self).usage() == old(self).usage().insert(
                        id,
                        EntryUsage { available_bytes: (current.available_bytes - bytes) as u64, ..current },
                    )
                }
            }),
    {
        let index = match self.find(&peer.service_id) {
            Some(i) => i,
            None => {
                return Err(Error::new(ErrorCode::AuthenticationRejected));
            },
        };
        let usage = self.entries[index].1;
        let elapsed: u64 = if now_ms >= usage.last_refill_ms { now_ms - usage.last_refill_ms } else { 0 };
        let current = if elapsed < 10 {
            usage
        } else {
            let rate = self.limits.bytes_per_second;
            proof {
                assert(rate as int * elapsed as int <= 0xffff_ffff_ffff_ffff * 0xffff_ffff_ffff_ffff) by (nonlinear_arith)
                    requires
                        rate <= 0xffff_ffff_ffff_ffffu64,
                        elapsed <= 0xffff_ffff_ffff_ffffu64,
                        rate >= 0,
                        elapsed >= 0,
                ;
            }
            let product: u128 = rate as u128 * elapsed as u128;
            let added128 = product / 1000;
            let added: u64 = if added128 > u64::MAX as u128 { u64::MAX } else { added128 as u64 };
            let saturated = usage.available_bytes.saturating_add(added);
            EntryUsage {
                available_bytes: if saturated <= self.limits.burst_bytes { saturated } else { self.limits.burst_bytes },
                last_refill_ms: now_ms,
                ..usage
            }
        };
        let name = self.entries[index].0.clone();
        if (bytes as u128) > current.available_bytes as u128 {
            proof {
                lemma_usage_update(self.entries@, index as int, current);
            }
            self.entries.set(index, (name, current));
            return Err(Error::new(ErrorCode::Backpressure));
        }
        let charged = EntryUsage { available_bytes: current.available_bytes - bytes as u64, ..current };
        proof {
            lemma_usage_update(self.entries@, index as int, charged);
        }
        self.entries.set(index, (name, charged));
        Ok(())
    }

    /// Ends one connection (`connection`) or session of an entry; an entry
    /// left with neither is forgotten. Unknown entries are ignored.
    pub fn release(&mut self, service_id: &String, connection: bool)
        requires
            old(self).wf(),
        ensures
            final(self).wf(),
            final(self).limits_spec() == old(self).limits_spec(),
            final(self).draining_spec() == old(self).draining_spec(),
            ({
                let id = service_id@;
                let u = old(self).usage()[id];
                let after = if connection {
                    EntryUsage { connections: if u.connections > 0 { (u.connections - 1) as usize } else { 0 }, ..u }
                } else {
                    EntryUsage { sessions: if u.sessions > 0 { (u.sessions - 1) as usize } else { 0 }, ..u }
                };
                if !old(self).usage().contains_key(id) {
                    final(self).usage() == old(self).usage()
                } else if after.connections == 0 && after.sessions == 0 {
                    final(self).usage() == old(self).usage().remove(id)
                } else {
                    final(self).usage() == old(self).usage().insert(id, after)
                }
            }),
    {
        let index = match self.find(service_id) {
            Some(i) => i,
            None => {
                return;
            },
        };
        let usage = self.entries[index].1;
        let after = if connection {
            EntryUsage { connections: usage.connections.saturating_sub(1), ..usage }
        } else {
            EntryUsage { sessions: usage.sessions.saturating_sub(1), ..usage }
        };
        if after.connections == 0 && after.sessions == 0 {
            let ghost before = self.entries@;
            self.entries.remove(index);
            proof {
                let t = self.entries@;
                assert forall|a: int| 0 <= a < t.len() implies #[trigger] t[a] == (if a < index { before[a] } else { before[a + 1] }) by {}
                assert(ids_distinct(t)) by {
                    assert forall|a: int, b: int| 0 <= a < t.len() && 0 <= b < t.len() && a != b implies #[trigger] t[a].0@
                        != #[trigger] t[b].0@ by {
                        let sa = if a < index { a } else { a + 1 };
                        let sb = if b < index { b } else { b + 1 };
                        assert(t[a] == before[sa] && t[b] == before[sb]);
                        assert(before[sa].0@ != before[sb].0@);
                    }
                }
                let m = usage_map(before).remove(service_id@);
                assert forall|id: Seq<char>| #[trigger] usage_map(t).contains_key(id) <==> m.contains_key(id) by {
                    if exists|k: int| 0 <= k < t.len() && #[trigger] t[k].0@ == id {
                        let k = choose|k: int| 0 <= k < t.len() && #[trigger] t[k].0@ == id;
                        let sk = if k < index { k } else { k + 1 };
                        assert(before[sk].0@ == id);
                        assert(before[sk].0@ != before[index as int].0@);
                    }
                    if exists|k: int| 0 <= k < before.len() && #[trigger] before[k].0@ == id {
                        let k = choose|k: int| 0 <= k < before.len() && #[trigger] before[k].0@ == id;
                        if id != service_id@ {
                            assert(k != index);
                            let tk = if k < index { k } else { k - 1 };
                            assert(t[tk].0@ == id);
                        }
                    }
                }
                assert forall|id: Seq<char>| #[trigger] usage_map(t).contains_key(id) implies usage_map(t)[id] == m[id] by {
                    let k = choose|k: int| 0 <= k < t.len() && #[trigger] t[k].0@ == id;
                    lemma_usage_entry(t, k);
                    let sk = if k < index { k } else { k + 1 };
                    lemma_usage_entry(before, sk);
                }
                assert(usage_map(t) =~= m);
            }
        } else {
            let name = self.entries[index].0.clone();
            proof {
                lemma_usage_update(self.entries@, index as int, after);
            }
            self.entries.set(index, (name, after));
        }
    }
}

/// The bucket regains bytes at the configured rate: after `elapsed_ms`
/// milliseconds it regains the whole bytes that `bytes_per_second` over that
/// time amounts to, the largest `r` with `1000 * r <= bytes_per_second *
/// elapsed_ms`; one full second regains exactly `bytes_per_second`.
pub proof fn lemma_refill_rate(bytes_per_second: u64, elapsed_ms: u64)
    ensures
        bytes_per_second * elapsed_ms < 1000 * (u64::MAX + 1) ==> {
            &&& 1000 * refill_amount(bytes_per_second, elapsed_ms) <= bytes_per_second * elapsed_ms
            &&& bytes_per_second * elapsed_ms < 1000 * refill_amount(bytes_per_second, elapsed_ms)
                + 1000
        },
        refill_amount(bytes_per_second, 1000) == bytes_per_second,
{
    let p = bytes_per_second * elapsed_ms;
    assert(p >= 0) by (nonlinear_arith)
        requires bytes_per_second >= 0, elapsed_ms >= 0, p == bytes_per_second * elapsed_ms;
    assert(1000 * (p / 1000) <= p && p < 1000 * (p / 1000) + 1000) by (nonlinear_arith)
        requires p >= 0;
    if p < 1000 * (u64::MAX + 1) {
        assert(p / 1000 <= u64::MAX) by (nonlinear_arith)
            requires p >= 0, p < 1000 * (u64::MAX + 1);
    }
    let q = bytes_per_second * 1000;
    assert(q / 1000 == bytes_per_second) by (nonlinear_arith)
        requires q == bytes_per_second * 1000, bytes_per_second >= 0;
}

/// Refilling once at least 10 ms have passed adds the rate's bytes for the
/// elapsed time to what is available, saturating at the burst size, and
/// restarts the clock; before 10 ms nothing changes. Counts of connections
/// and sessions are untouched.
pub proof fn lemma_refill_adds_rate(usage: EntryUsage, limits: EntryQuotaLimits, now_ms: u64)
    requires
        usage.available_bytes <= limits.burst_bytes,
    ensures
        now_ms < usage.last_refill_ms + 10 ==> refilled(usage, limits, now_ms) == usage,
        now_ms >= usage.last_refill_ms + 10 ==> {
            let after = refilled(usage, limits, now_ms);
            let elapsed = now_ms - usage.last_refill_ms;
            &&& after.last_refill_ms == now_ms
            &&& after.connections == usage.connections
            &&& after.sessions == usage.sessions
            &&& after.available_bytes <= limits.burst_bytes
            &&& after.available_bytes >= usage.available_bytes
            &&& (after.available_bytes == limits.burst_bytes || 1000 * (after.available_bytes
                - usage.available_bytes) <= limits.bytes_per_second * elapsed)
            &&& (after.available_bytes == limits.burst_bytes || limits.bytes_per_second * elapsed
                < 1000 * (after.available_bytes - usage.available_bytes) + 1000)
        },
{
    if now_ms >= usage.last_refill_ms + 10 {
        let elapsed = (now_ms - usage.last_refill_ms) as u64;
        lemma_refill_rate(limits.bytes_per_second, elapsed);
        let p = limits.bytes_per_second * elapsed;
        assert(p >= 0) by (nonlinear_arith)
            requires limits.bytes_per_second >= 0, elapsed >= 0, p == limits.bytes_per_second * elapsed;
        if p >= 1000 * (u64::MAX + 1) {
            assert(p / 1000 > u64::MAX) by (nonlinear_arith)
                requires p >= 1000 * (u64::MAX + 1);
        }
    }
}

} // verus!
