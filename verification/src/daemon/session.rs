//! Anonymous sessions, per-token quotas, scan detection and draining.
//!
//! Token states are keyed by an HMAC of the capability token under a random
//! per-process key, so the table never holds a token. Each token state carries
//! a connection-rate limiter `R` and a bandwidth limiter `B`; the caller owns
//! their arithmetic and reports their verdicts. Expiry times are Unix
//! milliseconds; scan windows use a monotonic millisecond clock.
use vstd::prelude::*;

use crate::crypto::{fill_random, hmac_sha256, hmac_sha256_of};
use crate::daemon::auth::{AuthenticationGrant, TokenLimits};
use crate::daemon::config::LimitConfig;
use crate::daemon::error::{GatewayError, GatewayErrorCode};
use crate::text::{bytes_of_string, bytes_equal, contains_text, text_bytes, texts};

verus! {

/// The distinct destinations a token reached within the current scan window.
pub struct ScanWindow {
    pub started_at_ms: u64,
    pub destinations: Vec<[u8; 16]>,
}

/// Accounting for one capability token.
pub struct TokenState<R, B> {
    pub expires_at_unix_ms: u64,
    pub max_sessions: usize,
    pub max_streams: usize,
    pub sessions: usize,
    pub streams: usize,
    pub connection_rate: R,
    pub bandwidth: B,
    pub scan: ScanWindow,
}

/// A grant the daemon can hold: one to 32 capabilities of one to 64 ASCII
/// bytes, and every limit positive.
pub open spec fn grant_valid(grant: AuthenticationGrant) -> bool {
    let caps = texts(grant.capabilities@);
    let limits = grant.limits;
    &&& 1 <= caps.len() <= 32
    &&& forall|i: int|
        0 <= i < caps.len() ==> 1 <= #[trigger] caps[i].len() <= 64 && forall|j: int|
            0 <= j < caps[i].len() ==> caps[i][j] < 128
    &&& limits.max_sessions != 0
    &&& limits.max_concurrent_streams != 0
    &&& limits.connections_per_second != 0
    &&& limits.connection_burst != 0
    &&& limits.bytes_per_second != 0
    &&& limits.bandwidth_burst_bytes != 0
    &&& limits.total_bytes != 0
}

fn ascii_bytes(b: &[u8]) -> (ok: bool)
    ensures
        ok == forall|j: int| 0 <= j < b@.len() ==> b@[j] < 128,
{
    let mut i: usize = 0;
    while i < b.len()
        invariant
            i <= b@.len(),
            forall|j: int| 0 <= j < i ==> b@[j] < 128,
        decreases b@.len() - i,
    {
        if b[i] >= 128 {
            return false;
        }
        i = i + 1;
    }
    true
}

/// Whether a grant is one the daemon can hold (`TokenRejected` otherwise).
pub fn validate_grant(grant: &AuthenticationGrant) -> (result: Result<(), GatewayError>)
    ensures
        result is Ok <==> grant_valid(*grant),
        result matches Err(e) ==> e.code == GatewayErrorCode::TokenRejected,
{
    let caps = grant.capabilities.as_slice();
    let limits = grant.limits;
    if caps.len() == 0 || caps.len() > 32 {
        return Err(GatewayError::new(GatewayErrorCode::TokenRejected));
    }
    let ghost t = texts(grant.capabilities@);
    let mut i: usize = 0;
    while i < caps.len()
        invariant
            i <= caps@.len(),
            t == texts(grant.capabilities@),
            caps@ == grant.capabilities@,
            forall|k: int|
                0 <= k < i ==> 1 <= #[trigger] t[k].len() <= 64 && forall|j: int|
                    0 <= j < t[k].len() ==> t[k][j] < 128,
        decreases caps@.len() - i,
    {
        let b = bytes_of_string(&caps[i]);
        if b.len() == 0 || b.len() > 64 || !ascii_bytes(b) {
            proof {
                assert(t[i as int] == b@);
            }
            return Err(GatewayError::new(GatewayErrorCode::TokenRejected));
        }
        i = i + 1;
    }
    if limits.max_sessions == 0 || limits.max_concurrent_streams == 0
        || limits.connections_per_second == 0 || limits.connection_burst == 0
        || limits.bytes_per_second == 0 || limits.bandwidth_burst_bytes == 0
        || limits.total_bytes == 0 {
        return Err(GatewayError::new(GatewayErrorCode::TokenRejected));
    }
    Ok(())
}

pub open spec fn min_usize(a: usize, b: usize) -> usize {
    if a <= b {
        a
    } else {
        b
    }
}

pub open spec fn min_u32(a: u32, b: u32) -> u32 {
    if a <= b {
        a
    } else {
        b
    }
}

pub open spec fn min_u64(a: u64, b: u64) -> u64 {
    if a <= b {
        a
    } else {
        b
    }
}

/// The token's limits, each capped by the server's.
pub open spec fn effective(token: TokenLimits, server: LimitConfig) -> TokenLimits {
    TokenLimits {
        max_sessions: min_usize(token.max_sessions, server.max_sessions_per_token),
        max_concurrent_streams: min_usize(token.max_concurrent_streams, server.max_streams_per_token),
        connections_per_second: min_u32(token.connections_per_second, server.connection_rate_per_second),
        connection_burst: min_u32(token.connection_burst, server.connection_rate_burst),
        bytes_per_second: min_u64(token.bytes_per_second, server.bandwidth_bytes_per_second),
        bandwidth_burst_bytes: min_u64(token.bandwidth_burst_bytes, server.bandwidth_burst_bytes),
        total_bytes: min_u64(token.total_bytes, server.token_byte_quota),
    }
}

/// Each effective limit is the smaller of the token's own and the server's
/// corresponding limit: at most both, and equal to one of them.
pub proof fn lemma_effective_is_the_tighter(token: TokenLimits, server: LimitConfig)
    ensures
        ({
            let e = effective(token, server);
            &&& e.max_sessions <= token.max_sessions && e.max_sessions <= server.max_sessions_per_token
            &&& (e.max_sessions == token.max_sessions || e.max_sessions == server.max_sessions_per_token)
            &&& e.max_concurrent_streams <= token.max_concurrent_streams && e.max_concurrent_streams
                <= server.max_streams_per_token
            &&& (e.max_concurrent_streams == token.max_concurrent_streams || e.max_concurrent_streams
                == server.max_streams_per_token)
            &&& e.connections_per_second <= token.connections_per_second && e.connections_per_second
                <= server.connection_rate_per_second
            &&& (e.connections_per_second == token.connections_per_second || e.connections_per_second
                == server.connection_rate_per_second)
            &&& e.connection_burst <= token.connection_burst && e.connection_burst
                <= server.connection_rate_burst
            &&& (e.connection_burst == token.connection_burst || e.connection_burst
                == server.connection_rate_burst)
            &&& e.bytes_per_second <= token.bytes_per_second && e.bytes_per_second
                <= server.bandwidth_bytes_per_second
            &&& (e.bytes_per_second == token.bytes_per_second || e.bytes_per_second
                == server.bandwidth_bytes_per_second)
            &&& e.bandwidth_burst_bytes <= token.bandwidth_burst_bytes && e.bandwidth_burst_bytes
                <= server.bandwidth_burst_bytes
            &&& (e.bandwidth_burst_bytes == token.bandwidth_burst_bytes || e.bandwidth_burst_bytes
                == server.bandwidth_burst_bytes)
            &&& e.total_bytes <= token.total_bytes && e.total_bytes <= server.token_byte_quota
            &&& (e.total_bytes == token.total_bytes || e.total_bytes == server.token_byte_quota)
        }),
{
}

/// The limits a token state is created with.
pub fn effective_limits(token: TokenLimits, server: &LimitConfig) -> (limits: TokenLimits)
    ensures
        limits == effective(token, *server),
{
    TokenLimits {
        max_sessions: if token.max_sessions <= server.max_sessions_per_token {
            token.max_sessions
        } else {
            server.max_sessions_per_token
        },
        max_concurrent_streams: if token.max_concurrent_streams <= server.max_streams_per_token {
            token.max_concurrent_streams
        } else {
            server.max_streams_per_token
        },
        connections_per_second: if token.connections_per_second <= server.connection_rate_per_second {
            token.connections_per_second
        } else {
            server.connection_rate_per_second
        },
        connection_burst: if token.connection_burst <= server.connection_rate_burst {
            token.connection_burst
        } else {
            server.connection_rate_burst
        },
        bytes_per_second: if token.bytes_per_second <= server.bandwidth_bytes_per_second {
            token.bytes_per_second
        } else {
            server.bandwidth_bytes_per_second
        },
        bandwidth_burst_bytes: if token.bandwidth_burst_bytes <= server.bandwidth_burst_bytes {
            token.bandwidth_burst_bytes
        } else {
            server.bandwidth_burst_bytes
        },
        total_bytes: if token.total_bytes <= server.token_byte_quota {
            token.total_bytes
        } else {
            server.token_byte_quota
        },
    }
}

/// A short-lived authenticated session. Its random handle suits only
/// TTL-limited local privacy events.
pub struct SessionLease {
    token_key: [u8; 32],
    token_expires_at_unix_ms: u64,
    handle: [u8; 8],
    expires_at_unix_ms: u64,
    capabilities: Vec<String>,
    streams: usize,
}

/// Accounting for one reserved stream; hand it back with `release_stream`.
pub struct StreamLease {
    token_key: [u8; 32],
}

impl SessionLease {
    pub closed spec fn key(&self) -> [u8; 32] {
        self.token_key
    }

    pub closed spec fn expiry(&self) -> u64 {
        self.expires_at_unix_ms
    }

    pub closed spec fn token_expiry(&self) -> u64 {
        self.token_expires_at_unix_ms
    }

    pub closed spec fn granted(&self) -> Seq<Seq<u8>> {
        texts(self.capabilities@)
    }

    pub closed spec fn stream_count(&self) -> usize {
        self.streams
    }

    pub closed spec fn handle_spec(&self) -> [u8; 8] {
        self.handle
    }

    pub fn handle(&self) -> (handle: [u8; 8])
        ensures
            handle == self.handle_spec(),
    {
        self.handle
    }

    pub fn expires_at(&self) -> (at: u64)
        ensures
            at == self.expiry(),
    {
        self.expires_at_unix_ms
    }

    pub fn capabilities(&self) -> (capabilities: &[String])
        ensures
            texts(capabilities@) == self.granted(),
    {
        self.capabilities.as_slice()
    }

    pub fn has_capability(&self, capability: &str) -> (found: bool)
        ensures
            found == self.granted().contains(vstd::utf8::encode_utf8(capability@)),
    {
        contains_text(self.capabilities.as_slice(), capability.as_bytes())
    }

    /// Both the session and its token are still unexpired at `now`.
    pub open spec fn active_at(&self, now_unix_ms: u64) -> bool {
        self.expiry() > now_unix_ms && self.token_expiry() > now_unix_ms
    }

    pub fn ensure_active(&self, now_unix_ms: u64) -> (result: Result<(), GatewayError>)
        ensures
            result is Ok <==> self.active_at(now_unix_ms),
            result matches Err(e) ==> e.code == GatewayErrorCode::SessionExpired,
    {
        if self.expires_at_unix_ms <= now_unix_ms || self.token_expires_at_unix_ms <= now_unix_ms {
            return Err(GatewayError::new(GatewayErrorCode::SessionExpired));
        }
        Ok(())
    }
}

impl StreamLease {
    pub closed spec fn key(&self) -> [u8; 32] {
        self.token_key
    }
}

/// Creates and accounts short-lived data-plane sessions.
pub struct SessionManager<R, B> {
    limits: LimitConfig,
    hash_key: [u8; 32],
    tokens: Vec<([u8; 32], TokenState<R, B>)>,
    sessions: usize,
    streams: usize,
    draining: bool,
}

/// Whether no key occurs twice in the token table.
pub open spec fn distinct_keys<R, B>(t: Seq<([u8; 32], TokenState<R, B>)>) -> bool {
    forall|i: int, j: int| 0 <= i < j < t.len() ==> #[trigger] t[i].0 != #[trigger] t[j].0
}

/// The position of `key` in the token table, if present.
pub open spec fn key_index<R, B>(t: Seq<([u8; 32], TokenState<R, B>)>, key: [u8; 32]) -> Option<int> {
    if exists|i: int| 0 <= i < t.len() && #[trigger] t[i].0 == key {
        Some(choose|i: int| 0 <= i < t.len() && #[trigger] t[i].0 == key)
    } else {
        None
    }
}

/// A token state survives a purge while unexpired or still in use.
pub open spec fn survives_purge<R, B>(state: TokenState<R, B>, now_unix_ms: u64) -> bool {
    state.expires_at_unix_ms > now_unix_ms || state.sessions > 0 || state.streams > 0
}

impl<R, B> SessionManager<R, B> {
    pub closed spec fn limits_spec(&self) -> LimitConfig {
        self.limits
    }

    pub closed spec fn hash_key_spec(&self) -> [u8; 32] {
        self.hash_key
    }

    pub closed spec fn table(&self) -> Seq<([u8; 32], TokenState<R, B>)> {
        self.tokens@
    }

    pub closed spec fn session_total(&self) -> usize {
        self.sessions
    }

    pub closed spec fn stream_total(&self) -> usize {
        self.streams
    }

    pub closed spec fn draining_spec(&self) -> bool {
        self.draining
    }

    /// The token key of a capability token.
    pub open spec fn key_of(&self, token: Seq<u8>) -> Seq<u8> {
        hmac_sha256_of(self.hash_key_spec()@, token)
    }

    pub closed spec fn wf(&self) -> bool {
        &&& distinct_keys(self.tokens@)
        &&& self.sessions <= self.limits.max_sessions
        &&& self.streams <= self.limits.max_streams_global
        &&& forall|i: int|
            0 <= i < self.tokens@.len() ==> {
                let s = #[trigger] self.tokens@[i].1;
                &&& s.sessions <= s.max_sessions
                &&& s.streams <= s.max_streams
            }
    }

    /// The global counters never exceed their limits, in any state.
    pub proof fn lemma_counts_bounded(&self)
        requires
            self.wf(),
        ensures
            self.session_total() <= self.limits_spec().max_sessions,
            self.stream_total() <= self.limits_spec().max_streams_global,
            forall|i: int|
                0 <= i < self.table().len() ==> (#[trigger] self.table()[i]).1.sessions
                    <= self.table()[i].1.max_sessions && self.table()[i].1.streams
                    <= self.table()[i].1.max_streams,
    {
    }

    /// A manager with an empty table, keyed by fresh entropy.
    pub fn new(limits: LimitConfig) -> (result: Result<Self, GatewayError>)
        ensures
            result matches Ok(manager) ==> {
                &&& manager.wf()
                &&& manager.limits_spec() == limits
                &&& manager.table().len() == 0
                &&& manager.session_total() == 0
                &&& manager.stream_total() == 0
                &&& !manager.draining_spec()
            },
            result matches Err(e) ==> e.code == GatewayErrorCode::Internal,
    {
        let mut hash_key = [0u8; 32];
        if !fill_random(&mut hash_key) {
            return Err(GatewayError::new(GatewayErrorCode::Internal));
        }
        Ok(
            SessionManager {
                limits,
                hash_key,
                tokens: Vec::new(),
                sessions: 0,
                streams: 0,
                draining: false,
            },
        )
    }

    pub fn set_draining(&mut self, draining: bool)
        requires
            old(self).wf(),
        ensures
            final(self).wf(),
            final(self).draining_spec() == draining,
            final(self).table() == old(self).table(),
            final(self).session_total() == old(self).session_total(),
            final(self).stream_total() == old(self).stream_total(),
            final(self).limits_spec() == old(self).limits_spec(),
            final(self).hash_key_spec() == old(self).hash_key_spec(),
    {
        self.draining = draining;
    }

    pub fn is_draining(&self) -> (draining: bool)
        ensures
            draining == self.draining_spec(),
    {
        self.draining
    }

    pub fn active_sessions(&self) -> (count: usize)
        ensures
            count == self.session_total(),
    {
        self.sessions
    }

    pub fn active_streams(&self) -> (count: usize)
        ensures
            count == self.stream_total(),
    {
        self.streams
    }

    /// Drops the token states that are expired and unused.
    pub fn purge_expired(&mut self, now_unix_ms: u64)
        requires
            old(self).wf(),
        ensures
            final(self).wf(),
            final(self).table() == old(self).table().filter(
                |e: ([u8; 32], TokenState<R, B>)| survives_purge(e.1, now_unix_ms),
            ),
            final(self).session_total() == old(self).session_total(),
            final(self).stream_total() == old(self).stream_total(),
            final(self).draining_spec() == old(self).draining_spec(),
            final(self).limits_spec() == old(self).limits_spec(),
            final(self).hash_key_spec() == old(self).hash_key_spec(),
    {
        let ghost before = self.tokens@;
        let ghost keep: spec_fn(([u8; 32], TokenState<R, B>)) -> bool = |e: ([u8; 32], TokenState<R, B>)|
            survives_purge(e.1, now_unix_ms);
        let mut kept: Vec<([u8; 32], TokenState<R, B>)> = Vec::new();
        let mut rest: Vec<([u8; 32], TokenState<R, B>)> = Vec::new();
        std::mem::swap(&mut rest, &mut self.tokens);
        let mut i: usize = 0;
        let total = rest.len();
        proof {
            assert(total == before.len());
            reveal(Seq::filter);
            assert(before.take(0) =~= Seq::<([u8; 32], TokenState<R, B>)>::empty());
            assert(rest@ =~= before.skip(0));
        }
        while rest.len() > 0
            invariant
                i <= before.len(),
                before.len() <= usize::MAX,
                forall|e: ([u8; 32], TokenState<R, B>)| #[trigger] keep(e) == survives_purge(e.1, now_unix_ms),
                rest@ == before.skip(i as int),
                kept@ == before.take(i as int).filter(keep),
                distinct_keys(before),
                distinct_keys(kept@),
                forall|k: int|
                    0 <= k < kept@.len() ==> exists|j: int|
                        0 <= j < i && #[trigger] before[j] == #[trigger] kept@[k],
                forall|j: int|
                    0 <= j < before.len() ==> {
                        let s = #[trigger] before[j].1;
                        &&& s.sessions <= s.max_sessions
                        &&& s.streams <= s.max_streams
                    },
            decreases rest@.len(),
        {
            let entry = rest.remove(0);
            proof {
                assert(entry == before[i as int]);
                assert(before.take(i + 1).drop_last() =~= before.take(i as int));
                assert(before.take(i + 1).last() == before[i as int]);
                reveal(Seq::filter);
                assert(rest@ =~= before.skip(i + 1));
                assert(keep(before[i as int]) == survives_purge(before[i as int].1, now_unix_ms));
                assert(before.take(i + 1).filter(keep) == if keep(before[i as int]) {
                    before.take(i as int).filter(keep).push(before[i as int])
                } else {
                    before.take(i as int).filter(keep)
                });
            }
            if entry.1.expires_at_unix_ms > now_unix_ms || entry.1.sessions > 0 || entry.1.streams > 0 {
                let ghost old_kept = kept@;
                kept.push(entry);
                proof {
                    assert forall|a: int, b: int| 0 <= a < b < kept@.len() implies #[trigger] kept@[a].0
                        != #[trigger] kept@[b].0 by {
                        if b == old_kept.len() {
                            let j = choose|j: int| 0 <= j < i && #[trigger] before[j] == old_kept[a];
                            assert(before[j].0 != before[i as int].0);
                        } else {
                            assert(old_kept[a].0 != old_kept[b].0);
                        }
                    }
                    assert forall|k: int| 0 <= k < kept@.len() implies exists|j: int|
                        0 <= j < i + 1 && #[trigger] before[j] == #[trigger] kept@[k] by {
                        if k == old_kept.len() {
                            assert(before[i as int] == kept@[k]);
                        } else {
                            let j = choose|j: int| 0 <= j < i && #[trigger] before[j] == old_kept[k];
                            assert(before[j] == kept@[k]);
                        }
                    }
                }
            }
            i = i + 1;
        }
        proof {
            assert(before.take(before.len() as int) =~= before);
        }
        self.tokens = kept;
        proof {
            assert forall|k: int| 0 <= k < self.tokens@.len() implies {
                let s = #[trigger] self.tokens@[k].1;
                &&& s.sessions <= s.max_sessions
                &&& s.streams <= s.max_streams
            } by {
                let j = choose|j: int| 0 <= j < before.len() && #[trigger] before[j] == self.tokens@[k];
                assert(before[j].1 == self.tokens@[k].1);
            }
        }
    }
}

/// Whether two keys are equal.
fn same_key(a: &[u8; 32], b: &[u8; 32]) -> (same: bool)
    ensures
        same == (*a == *b),
{
    let same = bytes_equal(a, b);
    proof {
        if same {
            assert(a@ =~= b@);
            assert(*a =~= *b);
        }
    }
    same
}

/// The first 16 bytes of a digest.
fn short_digest(digest: &[u8; 32]) -> (short: [u8; 16])
    ensures
        short@ == digest@.subrange(0, 16),
{
    let mut short = [0u8; 16];
    let mut i: usize = 0;
    while i < 16
        invariant
            i <= 16,
            forall|k: int| 0 <= k < i ==> short@[k] == digest@[k],
        decreases 16 - i,
    {
        short[i] = digest[i];
        i = i + 1;
    }
    proof {
        assert(short@ =~= digest@.subrange(0, 16));
    }
    short
}

/// The decision on a registration, up to the draw of the session handle.
pub open spec fn register_check<R, B>(
    m: SessionManager<R, B>,
    token: Seq<u8>,
    grant: AuthenticationGrant,
    now_unix_ms: u64,
) -> Option<GatewayErrorCode> {
    if m.draining_spec() {
        Some(GatewayErrorCode::Draining)
    } else if token.len() == 0 || grant.expires_at_unix_ms <= now_unix_ms {
        Some(GatewayErrorCode::TokenRejected)
    } else if !grant_valid(grant) {
        Some(GatewayErrorCode::TokenRejected)
    } else if m.session_total() >= m.limits_spec().max_sessions {
        Some(GatewayErrorCode::ResourceExhausted)
    } else {
        let purged = m.table().filter(
            |e: ([u8; 32], TokenState<R, B>)| survives_purge(e.1, now_unix_ms),
        );
        match key_index_by_view(purged, m.key_of(token)) {
            None => if purged.len() >= m.limits_spec().max_token_states {
                Some(GatewayErrorCode::ResourceExhausted)
            } else if effective(grant.limits, m.limits_spec()).max_sessions == 0 {
                Some(GatewayErrorCode::ResourceExhausted)
            } else {
                None
            },
            Some(i) => if purged[i].1.expires_at_unix_ms <= now_unix_ms {
                Some(GatewayErrorCode::TokenRejected)
            } else if purged[i].1.sessions >= purged[i].1.max_sessions {
                Some(GatewayErrorCode::ResourceExhausted)
            } else {
                None
            },
        }
    }
}

/// The position of the key with bytes `key`, if present.
pub open spec fn key_index_by_view<R, B>(t: Seq<([u8; 32], TokenState<R, B>)>, key: Seq<u8>) -> Option<int> {
    if exists|i: int| 0 <= i < t.len() && #[trigger] t[i].0@ == key {
        Some(choose|i: int| 0 <= i < t.len() && #[trigger] t[i].0@ == key)
    } else {
        None
    }
}

impl<R, B> SessionManager<R, B> {
    fn find_token(&self, key: &[u8; 32]) -> (found: Option<usize>)
        requires
            self.wf(),
        ensures
            match found {
                Some(i) => i < self.tokens@.len() && self.tokens@[i as int].0 == *key
                    && key_index_by_view(self.tokens@, key@) == Some(i as int),
                None => key_index_by_view(self.tokens@, key@) is None,
            },
    {
        let mut i: usize = 0;
        while i < self.tokens.len()
            invariant
                self.wf(),
                i <= self.tokens@.len(),
                forall|k: int| 0 <= k < i ==> (#[trigger] self.tokens@[k]).0@ != key@,
            decreases self.tokens@.len() - i,
        {
            if same_key(&self.tokens[i].0, key) {
                proof {
                    assert(self.tokens@[i as int].0@ == key@);
                    let j = choose|j: int| 0 <= j < self.tokens@.len() && #[trigger] self.tokens@[j].0@ == key@;
                    if j != i {
                        assert(self.tokens@[j].0@ =~= self.tokens@[i as int].0@);
                        assert(self.tokens@[j].0 =~= self.tokens@[i as int].0);
                        if j < i {
                            assert(self.tokens@[j].0 != self.tokens@[i as int].0);
                        } else {
                            assert(self.tokens@[i as int].0 != self.tokens@[j].0);
                        }
                    }
                }
                return Some(i);
            }
            proof {
                if self.tokens@[i as int].0@ == key@ {
                    assert(self.tokens@[i as int].0 =~= *key);
                }
            }
            i = i + 1;
        }
        None
    }

    /// The first part of registering: the checks of `register_check`, then
    /// one more session counted for the manager and for the token, whose
    /// state is created (with the `fresh` limiters) when it has none.
    fn count_in(
        &mut self,
        capability_token: &[u8],
        grant: &AuthenticationGrant,
        fresh: (R, B),
        now_unix_ms: u64,
        now_mono_ms: u64,
    ) -> (result: Result<(usize, [u8; 32]), GatewayError>)
        requires
            old(self).wf(),
        ensures
            final(self).wf(),
            final(self).limits_spec() == old(self).limits_spec(),
            final(self).hash_key_spec() == old(self).hash_key_spec(),
            final(self).draining_spec() == old(self).draining_spec(),
            final(self).stream_total() == old(self).stream_total(),
            match register_check(*old(self), capability_token@, *grant, now_unix_ms) {
                Some(code) => result matches Err(e) && e.code == code && final(self).session_total()
                    == old(self).session_total(),
                None => result matches Ok((index, key)) && {
                    &&& index < final(self).tokens@.len()
                    &&& final(self).tokens@[index as int].0 == key
                    &&& key@ == old(self).key_of(capability_token@)
                    &&& final(self).tokens@[index as int].1.expires_at_unix_ms > now_unix_ms
                    &&& final(self).tokens@[index as int].1.sessions >= 1
                    &&& final(self).session_total() == old(self).session_total() + 1
                },
            },
    {
        if self.draining {
            return Err(GatewayError::new(GatewayErrorCode::Draining));
        }
        if capability_token.len() == 0 || grant.expires_at_unix_ms <= now_unix_ms {
            return Err(GatewayError::new(GatewayErrorCode::TokenRejected));
        }
        validate_grant(grant)?;
        if self.sessions >= self.limits.max_sessions {
            return Err(GatewayError::new(GatewayErrorCode::ResourceExhausted));
        }
        self.sessions = self.sessions + 1;
        let token_key = hmac_sha256(&self.hash_key, capability_token);
        self.purge_expired(now_unix_ms);
        let index = match self.find_token(&token_key) {
            Some(i) => i,
            None => {
                if self.tokens.len() >= self.limits.max_token_states {
                    self.sessions = self.sessions - 1;
                    return Err(GatewayError::new(GatewayErrorCode::ResourceExhausted));
                }
                let effective = effective_limits(grant.limits, &self.limits);
                let (connection_rate, bandwidth) = fresh;
                let state = TokenState {
                    expires_at_unix_ms: grant.expires_at_unix_ms,
                    max_sessions: effective.max_sessions,
                    max_streams: effective.max_concurrent_streams,
                    sessions: 0,
                    streams: 0,
                    connection_rate,
                    bandwidth,
                    scan: ScanWindow { started_at_ms: now_mono_ms, destinations: Vec::new() },
                };
                let ghost before = self.tokens@;
                self.tokens.push((token_key, state));
                proof {
                    assert forall|a: int, b: int| 0 <= a < b < self.tokens@.len() implies
                        #[trigger] self.tokens@[a].0 != #[trigger] self.tokens@[b].0 by {
                        if b == before.len() {
                            if self.tokens@[a].0 == token_key {
                                assert(before[a].0@ == token_key@);
                            }
                        } else {
                            assert(before[a].0 != before[b].0);
                        }
                    }
                    assert(self.tokens@[before.len() as int].0@ == token_key@);
                }
                self.tokens.len() - 1
            },
        };
        if self.tokens[index].1.expires_at_unix_ms <= now_unix_ms {
            self.sessions = self.sessions - 1;
            return Err(GatewayError::new(GatewayErrorCode::TokenRejected));
        }
        if self.tokens[index].1.sessions >= self.tokens[index].1.max_sessions {
            self.sessions = self.sessions - 1;
            return Err(GatewayError::new(GatewayErrorCode::ResourceExhausted));
        }
        let mut state_sessions = self.tokens[index].1.sessions;
        state_sessions = state_sessions + 1;
        self.set_token_sessions(index, state_sessions);
        Ok((index, token_key))
    }

    /// Gives back the session counted by `count_in`.
    fn withdraw(&mut self, index: usize)
        requires
            old(self).wf(),
            index < old(self).tokens@.len(),
            old(self).tokens@[index as int].1.sessions >= 1,
            old(self).sessions >= 1,
        ensures
            final(self).wf(),
            final(self).limits_spec() == old(self).limits_spec(),
            final(self).hash_key_spec() == old(self).hash_key_spec(),
            final(self).draining_spec() == old(self).draining_spec(),
            final(self).stream_total() == old(self).stream_total(),
            final(self).session_total() == old(self).session_total() - 1,
    {
        let sessions = self.tokens[index].1.sessions;
        self.set_token_sessions(index, sessions - 1);
        self.sessions = self.sessions - 1;
    }

    /// The second part of registering: the lease for a counted session
    /// with the given handle, or `Internal` (and the session given back)
    /// when the session's time to live overflows the clock.
    fn issue_lease(
        &mut self,
        index: usize,
        token_key: [u8; 32],
        handle: [u8; 8],
        grant: AuthenticationGrant,
        now_unix_ms: u64,
    ) -> (result: Result<SessionLease, GatewayError>)
        requires
            old(self).wf(),
            index < old(self).tokens@.len(),
            old(self).tokens@[index as int].1.sessions >= 1,
            old(self).sessions >= 1,
        ensures
            final(self).wf(),
            final(self).limits_spec() == old(self).limits_spec(),
            final(self).hash_key_spec() == old(self).hash_key_spec(),
            final(self).draining_spec() == old(self).draining_spec(),
            final(self).stream_total() == old(self).stream_total(),
            if now_unix_ms + old(self).limits_spec().session_ttl_seconds * 1000 > u64::MAX {
                result matches Err(e) && e.code == GatewayErrorCode::Internal
                    && final(self).session_total() == old(self).session_total() - 1
            } else {
                result matches Ok(lease) && {
                    &&& final(self).session_total() == old(self).session_total()
                    &&& lease.key() == token_key
                    &&& lease.handle_spec() == handle
                    &&& lease.granted() == texts(grant.capabilities@)
                    &&& lease.stream_count() == 0
                    &&& lease.token_expiry() == old(self).tokens@[index as int].1.expires_at_unix_ms
                    &&& lease.expiry() == if now_unix_ms + old(self).limits_spec().session_ttl_seconds
                        * 1000 < grant.expires_at_unix_ms {
                        (now_unix_ms + old(self).limits_spec().session_ttl_seconds * 1000) as u64
                    } else {
                        grant.expires_at_unix_ms
                    }
                }
            },
    {
        let ttl_ms = match self.limits.session_ttl_seconds.checked_mul(1000) {
            Some(ms) => ms,
            None => {
                self.withdraw(index);
                return Err(GatewayError::new(GatewayErrorCode::Internal));
            },
        };
        let maximum_expiry = match now_unix_ms.checked_add(ttl_ms) {
            Some(at) => at,
            None => {
                self.withdraw(index);
                return Err(GatewayError::new(GatewayErrorCode::Internal));
            },
        };
        let expires_at = if maximum_expiry < grant.expires_at_unix_ms {
            maximum_expiry
        } else {
            grant.expires_at_unix_ms
        };
        Ok(
            SessionLease {
                token_key,
                token_expires_at_unix_ms: self.tokens[index].1.expires_at_unix_ms,
                handle,
                expires_at_unix_ms: expires_at,
                capabilities: grant.capabilities,
                streams: 0,
            },
        )
    }

    /// Registers a session for a verified grant with the given session
    /// handle. `fresh` holds the limiters a new token state gets, built for
    /// `effective_limits(grant.limits, ..)`; they are dropped when the token
    /// already has a state. When the session's time to live overflows the
    /// clock the result is `Internal`, with the session counts as they were.
    pub fn register_with_handle(
        &mut self,
        capability_token: &[u8],
        grant: AuthenticationGrant,
        fresh: (R, B),
        handle: [u8; 8],
        now_unix_ms: u64,
        now_mono_ms: u64,
    ) -> (result: Result<SessionLease, GatewayError>)
        requires
            old(self).wf(),
        ensures
            final(self).wf(),
            final(self).limits_spec() == old(self).limits_spec(),
            final(self).hash_key_spec() == old(self).hash_key_spec(),
            final(self).draining_spec() == old(self).draining_spec(),
            final(self).stream_total() == old(self).stream_total(),
            match register_check(*old(self), capability_token@, grant, now_unix_ms) {
                Some(code) => result matches Err(e) && e.code == code && final(self).session_total()
                    == old(self).session_total(),
                None => if now_unix_ms + old(self).limits_spec().session_ttl_seconds * 1000 > u64::MAX {
                    result matches Err(e) && e.code == GatewayErrorCode::Internal
                        && final(self).session_total() == old(self).session_total()
                } else {
                    result matches Ok(lease) && {
                        &&& final(self).session_total() == old(self).session_total() + 1
                        &&& lease.key()@ == old(self).key_of(capability_token@)
                        &&& lease.handle_spec() == handle
                        &&& lease.granted() == texts(grant.capabilities@)
                        &&& lease.stream_count() == 0
                        &&& lease.token_expiry() > now_unix_ms
                        &&& lease.expiry() == if now_unix_ms + old(self).limits_spec().session_ttl_seconds
                            * 1000 < grant.expires_at_unix_ms {
                            (now_unix_ms + old(self).limits_spec().session_ttl_seconds * 1000) as u64
                        } else {
                            grant.expires_at_unix_ms
                        }
                    }
                },
            },
    {
        let (index, token_key) = self.count_in(capability_token, &grant, fresh, now_unix_ms, now_mono_ms)?;
        self.issue_lease(index, token_key, handle, grant, now_unix_ms)
    }

    /// Registers a session for a verified grant, as `register_with_handle`
    /// does with a fresh random handle; a failing entropy source is
    /// `Internal`, with the session counts as they were.
    pub fn register(
        &mut self,
        capability_token: &[u8],
        grant: AuthenticationGrant,
        fresh: (R, B),
        now_unix_ms: u64,
        now_mono_ms: u64,
    ) -> (result: Result<SessionLease, GatewayError>)
        requires
            old(self).wf(),
        ensures
            final(self).wf(),
            final(self).limits_spec() == old(self).limits_spec(),
            final(self).hash_key_spec() == old(self).hash_key_spec(),
            final(self).draining_spec() == old(self).draining_spec(),
            final(self).stream_total() == old(self).stream_total(),
            match register_check(*old(self), capability_token@, grant, now_unix_ms) {
                Some(code) => result matches Err(e) && e.code == code && final(self).session_total()
                    == old(self).session_total(),
                None => match result {
                    Ok(lease) => {
                        &&& final(self).session_total() == old(self).session_total() + 1
                        &&& lease.key()@ == old(self).key_of(capability_token@)
                        &&& lease.granted() == texts(grant.capabilities@)
                        &&& lease.stream_count() == 0
                        &&& lease.token_expiry() > now_unix_ms
                        &&& lease.expiry() == if now_unix_ms + old(self).limits_spec().session_ttl_seconds
                            * 1000 < grant.expires_at_unix_ms {
                            (now_unix_ms + old(self).limits_spec().session_ttl_seconds * 1000) as u64
                        } else {
                            grant.expires_at_unix_ms
                        }
                    },
                    Err(e) => e.code == GatewayErrorCode::Internal && final(self).session_total()
                        == old(self).session_total(),
                },
            },
    {
        let (index, token_key) = self.count_in(capability_token, &grant, fresh, now_unix_ms, now_mono_ms)?;
        let mut handle = [0u8; 8];
        if !fill_random(&mut handle) {
            self.withdraw(index);
            return Err(GatewayError::new(GatewayErrorCode::Internal));
        }
        self.issue_lease(index, token_key, handle, grant, now_unix_ms)
    }

    fn set_token_sessions(&mut self, index: usize, sessions: usize)
        requires
            old(self).wf(),
            index < old(self).tokens@.len(),
            sessions <= old(self).tokens@[index as int].1.max_sessions,
        ensures
            final(self).wf(),
            final(self).tokens@.len() == old(self).tokens@.len(),
            forall|k: int| 0 <= k < old(self).tokens@.len() && k != index ==> final(self).tokens@[k] == old(self).tokens@[k],
            final(self).tokens@[index as int].0 == old(self).tokens@[index as int].0,
            final(self).tokens@[index as int].1.sessions == sessions,
            final(self).tokens@[index as int].1.expires_at_unix_ms == old(self).tokens@[index as int].1.expires_at_unix_ms,
            final(self).tokens@[index as int].1.max_sessions == old(self).tokens@[index as int].1.max_sessions,
            final(self).tokens@[index as int].1.streams == old(self).tokens@[index as int].1.streams,
            final(self).tokens@[index as int].1.max_streams == old(self).tokens@[index as int].1.max_streams,
            final(self).sessions == old(self).sessions,
            final(self).streams == old(self).streams,
            final(self).limits == old(self).limits,
            final(self).hash_key == old(self).hash_key,
            final(self).draining == old(self).draining,
    {
        let ghost before = self.tokens@;
        self.tokens[index].1.sessions = sessions;
        proof {
            assert forall|a: int, b: int| 0 <= a < b < self.tokens@.len() implies
                #[trigger] self.tokens@[a].0 != #[trigger] self.tokens@[b].0 by {
                assert(self.tokens@[a].0 == before[a].0);
                assert(self.tokens@[b].0 == before[b].0);
            }
        }
    }
}

/// The scan set after recording `tag` at `now_mono_ms`: a window that has
/// run out starts afresh, and a tag already seen is not added twice.
pub open spec fn scan_after(scan: ScanWindow, tag: [u8; 16], now_mono_ms: u64, window_ms: u64) -> Seq<[u8; 16]> {
    let base = if now_mono_ms >= scan.started_at_ms && now_mono_ms - scan.started_at_ms >= window_ms {
        Seq::empty()
    } else {
        scan.destinations@
    };
    if base.contains(tag) {
        base
    } else {
        base.push(tag)
    }
}

/// The scan window length in milliseconds, saturating.
pub open spec fn window_ms(limits: LimitConfig) -> u64 {
    if limits.scan_window_seconds * 1000 > u64::MAX {
        u64::MAX
    } else {
        (limits.scan_window_seconds * 1000) as u64
    }
}

/// The keyed digest under which a destination is remembered.
pub open spec fn destination_tag(hash_key: Seq<u8>, token_key: Seq<u8>, material: Seq<u8>) -> Seq<u8> {
    hmac_sha256_of(hash_key, token_key + material).subrange(0, 16)
}

impl<R, B> SessionManager<R, B> {
    /// The checks made before the connection-rate limiter is consulted.
    pub open spec fn precheck(&self, lease: SessionLease, now_unix_ms: u64) -> Option<GatewayErrorCode> {
        if !lease.active_at(now_unix_ms) {
            Some(GatewayErrorCode::SessionExpired)
        } else if self.draining_spec() {
            Some(GatewayErrorCode::Draining)
        } else {
            None
        }
    }

    pub fn begin_reserve(&self, lease: &SessionLease, now_unix_ms: u64) -> (result: Result<(), GatewayError>)
        ensures
            match self.precheck(*lease, now_unix_ms) {
                Some(code) => result matches Err(e) && e.code == code,
                None => result is Ok,
            },
    {
        lease.ensure_active(now_unix_ms)?;
        if self.draining {
            return Err(GatewayError::new(GatewayErrorCode::Draining));
        }
        Ok(())
    }

    /// The decision on a stream reservation, given the rate verdict.
    pub open spec fn reserve_check(
        &self,
        lease: SessionLease,
        material: Seq<u8>,
        rate_allowed: bool,
        now_unix_ms: u64,
        now_mono_ms: u64,
    ) -> Option<GatewayErrorCode> {
        match self.precheck(lease, now_unix_ms) {
            Some(code) => Some(code),
            None => if !rate_allowed {
                Some(GatewayErrorCode::RateLimited)
            } else {
                match key_index_by_view(self.table(), lease.key()@) {
                    None => Some(GatewayErrorCode::Internal),
                    Some(i) => {
                        let state = self.table()[i].1;
                        let tag = destination_tag(self.hash_key_spec()@, lease.key()@, material);
                        let scan = scan_after(
                            state.scan,
                            choose|t: [u8; 16]| t@ == tag,
                            now_mono_ms,
                            window_ms(self.limits_spec()),
                        );
                        if scan.len() > self.limits_spec().scan_distinct_destination_limit {
                            Some(GatewayErrorCode::PolicyDenied)
                        } else if lease.stream_count() >= self.limits_spec().max_streams_per_session {
                            Some(GatewayErrorCode::ResourceExhausted)
                        } else if state.streams >= state.max_streams {
                            Some(GatewayErrorCode::ResourceExhausted)
                        } else if self.stream_total() >= self.limits_spec().max_streams_global {
                            Some(GatewayErrorCode::ResourceExhausted)
                        } else {
                            None
                        }
                    },
                }
            },
        }
    }

    fn record_destination(&mut self, index: usize, tag: [u8; 16], now_mono_ms: u64) -> (count: usize)
        requires
            old(self).wf(),
            index < old(self).tokens@.len(),
        ensures
            final(self).wf(),
            final(self).tokens@.len() == old(self).tokens@.len(),
            forall|k: int| 0 <= k < old(self).tokens@.len() && k != index ==> final(self).tokens@[k] == old(self).tokens@[k],
            final(self).tokens@[index as int].0 == old(self).tokens@[index as int].0,
            final(self).tokens@[index as int].1.sessions == old(self).tokens@[index as int].1.sessions,
            final(self).tokens@[index as int].1.streams == old(self).tokens@[index as int].1.streams,
            final(self).tokens@[index as int].1.max_streams == old(self).tokens@[index as int].1.max_streams,
            final(self).tokens@[index as int].1.max_sessions == old(self).tokens@[index as int].1.max_sessions,
            final(self).tokens@[index as int].1.expires_at_unix_ms == old(self).tokens@[index as int].1.expires_at_unix_ms,
            final(self).tokens@[index as int].1.scan.destinations@ == scan_after(
                old(self).tokens@[index as int].1.scan,
                tag,
                now_mono_ms,
                window_ms(old(self).limits),
            ),
            count == final(self).tokens@[index as int].1.scan.destinations@.len(),
            final(self).sessions == old(self).sessions,
            final(self).streams == old(self).streams,
            final(self).limits == old(self).limits,
            final(self).hash_key == old(self).hash_key,
            final(self).draining == old(self).draining,
    {
        let window = match self.limits.scan_window_seconds.checked_mul(1000) {
            Some(w) => w,
            None => u64::MAX,
        };
        let ghost before = self.tokens@;
        let started = self.tokens[index].1.scan.started_at_ms;
        if now_mono_ms >= started && now_mono_ms - started >= window {
            self.tokens[index].1.scan.started_at_ms = now_mono_ms;
            self.tokens[index].1.scan.destinations = Vec::new();
        }
        let ghost base = self.tokens@[index as int].1.scan.destinations@;
        let mut seen = false;
        let mut k: usize = 0;
        while k < self.tokens[index].1.scan.destinations.len()
            invariant
                index < self.tokens@.len(),
                k <= self.tokens@[index as int].1.scan.destinations@.len(),
                base == self.tokens@[index as int].1.scan.destinations@,
                seen == exists|j: int| 0 <= j < k && base[j] == tag,
            decreases self.tokens@[index as int].1.scan.destinations@.len() - k,
        {
            let candidate = self.tokens[index].1.scan.destinations[k];
            if bytes_equal(&candidate, &tag) {
                proof {
                    assert(candidate@ =~= tag@);
                    assert(candidate =~= tag);
                }
                seen = true;
            } else {
                proof {
                    if base[k as int] == tag {
                        assert(candidate@ == tag@);
                    }
                }
            }
            k = k + 1;
        }
        if !seen {
            self.tokens[index].1.scan.destinations.push(tag);
        }
        proof {
            assert(base.contains(tag) == seen);
            assert forall|a: int, b: int| 0 <= a < b < self.tokens@.len() implies
                #[trigger] self.tokens@[a].0 != #[trigger] self.tokens@[b].0 by {
                assert(self.tokens@[a].0 == before[a].0);
                assert(self.tokens@[b].0 == before[b].0);
            }
        }
        self.tokens[index].1.scan.destinations.len()
    }
}

impl<R, B> SessionManager<R, B> {
    fn set_token_streams(&mut self, index: usize, streams: usize)
        requires
            old(self).wf(),
            index < old(self).tokens@.len(),
            streams <= old(self).tokens@[index as int].1.max_streams,
        ensures
            final(self).wf(),
            final(self).tokens@.len() == old(self).tokens@.len(),
            forall|k: int| 0 <= k < old(self).tokens@.len() && k != index ==> final(self).tokens@[k] == old(self).tokens@[k],
            final(self).tokens@[index as int].0 == old(self).tokens@[index as int].0,
            final(self).tokens@[index as int].1.streams == streams,
            final(self).tokens@[index as int].1.sessions == old(self).tokens@[index as int].1.sessions,
            final(self).tokens@[index as int].1.max_streams == old(self).tokens@[index as int].1.max_streams,
            final(self).tokens@[index as int].1.max_sessions == old(self).tokens@[index as int].1.max_sessions,
            final(self).tokens@[index as int].1.expires_at_unix_ms == old(self).tokens@[index as int].1.expires_at_unix_ms,
            final(self).sessions == old(self).sessions,
            final(self).streams == old(self).streams,
            final(self).limits == old(self).limits,
            final(self).hash_key == old(self).hash_key,
            final(self).draining == old(self).draining,
    {
        let ghost before = self.tokens@;
        self.tokens[index].1.streams = streams;
        proof {
            assert forall|a: int, b: int| 0 <= a < b < self.tokens@.len() implies
                #[trigger] self.tokens@[a].0 != #[trigger] self.tokens@[b].0 by {
                assert(self.tokens@[a].0 == before[a].0);
                assert(self.tokens@[b].0 == before[b].0);
            }
        }
    }

    /// Reserves a stream for `lease` once the caller's connection-rate
    /// limiter has answered `rate_allowed`. The destination is remembered only
    /// as a keyed digest; a token that reaches too many distinct destinations
    /// within the scan window is refused.
    pub fn reserve_stream(
        &mut self,
        lease: &mut SessionLease,
        destination_material: &[u8],
        rate_allowed: bool,
        now_unix_ms: u64,
        now_mono_ms: u64,
    ) -> (result: Result<StreamLease, GatewayError>)
        requires
            old(self).wf(),
        ensures
            final(self).wf(),
            final(self).limits_spec() == old(self).limits_spec(),
            final(self).hash_key_spec() == old(self).hash_key_spec(),
            final(self).draining_spec() == old(self).draining_spec(),
            final(self).session_total() == old(self).session_total(),
            final(lease).key() == old(lease).key(),
            final(lease).expiry() == old(lease).expiry(),
            final(lease).granted() == old(lease).granted(),
            match old(self).reserve_check(
                *old(lease),
                destination_material@,
                rate_allowed,
                now_unix_ms,
                now_mono_ms,
            ) {
                Some(code) => result matches Err(e) && e.code == code && final(self).stream_total()
                    == old(self).stream_total() && final(lease).stream_count() == old(lease).stream_count(),
                None => result matches Ok(stream) && stream.key() == old(lease).key()
                    && final(self).stream_total() == old(self).stream_total() + 1
                    && final(lease).stream_count() == old(lease).stream_count() + 1,
            },
    {
        self.begin_reserve(lease, now_unix_ms)?;
        if !rate_allowed {
            return Err(GatewayError::new(GatewayErrorCode::RateLimited));
        }
        let index = match self.find_token(&lease.token_key) {
            Some(i) => i,
            None => return Err(GatewayError::new(GatewayErrorCode::Internal)),
        };
        let mut material: Vec<u8> = Vec::new();
        crate::text::append_bytes(&mut material, &lease.token_key);
        crate::text::append_bytes(&mut material, destination_material);
        let digest = hmac_sha256(&self.hash_key, material.as_slice());
        let tag = short_digest(&digest);
        proof {
            let tag_seq = destination_tag(self.hash_key@, lease.token_key@, destination_material@);
            assert(material@ =~= lease.token_key@ + destination_material@);
            assert(tag@ == tag_seq);
            let chosen = choose|t: [u8; 16]| t@ == tag_seq;
            assert(chosen@ == tag_seq);
            assert(chosen =~= tag);
        }
        let count = self.record_destination(index, tag, now_mono_ms);
        if count > self.limits.scan_distinct_destination_limit {
            return Err(GatewayError::new(GatewayErrorCode::PolicyDenied));
        }
        if lease.streams >= self.limits.max_streams_per_session {
            return Err(GatewayError::new(GatewayErrorCode::ResourceExhausted));
        }
        if self.tokens[index].1.streams >= self.tokens[index].1.max_streams {
            return Err(GatewayError::new(GatewayErrorCode::ResourceExhausted));
        }
        if self.streams >= self.limits.max_streams_global {
            return Err(GatewayError::new(GatewayErrorCode::ResourceExhausted));
        }
        let token_streams = self.tokens[index].1.streams + 1;
        self.set_token_streams(index, token_streams);
        self.streams = self.streams + 1;
        lease.streams = lease.streams + 1;
        Ok(StreamLease { token_key: lease.token_key })
    }

    /// Returns a stream's accounting.
    pub fn release_stream(&mut self, lease: &mut SessionLease, stream: StreamLease)
        requires
            old(self).wf(),
        ensures
            final(self).wf(),
            final(self).limits_spec() == old(self).limits_spec(),
            final(self).hash_key_spec() == old(self).hash_key_spec(),
            final(self).draining_spec() == old(self).draining_spec(),
            final(self).session_total() == old(self).session_total(),
            final(self).stream_total() == if old(self).stream_total() > 0 {
                (old(self).stream_total() - 1) as usize
            } else {
                0
            },
            final(lease).key() == old(lease).key(),
            final(lease).expiry() == old(lease).expiry(),
            final(lease).stream_count() == if old(lease).stream_count() > 0 {
                (old(lease).stream_count() - 1) as usize
            } else {
                0
            },
    {
        if lease.streams > 0 {
            lease.streams = lease.streams - 1;
        }
        if let Some(i) = self.find_token(&stream.token_key) {
            if self.tokens[i].1.streams > 0 {
                let streams = self.tokens[i].1.streams - 1;
                self.set_token_streams(i, streams);
            }
        }
        if self.streams > 0 {
            self.streams = self.streams - 1;
        }
    }

    /// Ends a session and returns its accounting.
    pub fn release_session(&mut self, lease: SessionLease)
        requires
            old(self).wf(),
        ensures
            final(self).wf(),
            final(self).limits_spec() == old(self).limits_spec(),
            final(self).hash_key_spec() == old(self).hash_key_spec(),
            final(self).draining_spec() == old(self).draining_spec(),
            final(self).stream_total() == old(self).stream_total(),
            final(self).session_total() == if old(self).session_total() > 0 {
                (old(self).session_total() - 1) as usize
            } else {
                0
            },
    {
        if let Some(i) = self.find_token(&lease.token_key) {
            if self.tokens[i].1.sessions > 0 {
                let sessions = self.tokens[i].1.sessions - 1;
                self.set_token_sessions(i, sessions);
            }
        }
        if self.sessions > 0 {
            self.sessions = self.sessions - 1;
        }
    }

    /// The connection-rate limiter of a session's token.
    pub fn connection_rate_mut(&mut self, lease: &SessionLease) -> (limiter: Option<&mut R>)
        requires
            old(self).wf(),
        ensures
            final(self).wf(),
            final(self).session_total() == old(self).session_total(),
            final(self).stream_total() == old(self).stream_total(),
            final(self).draining_spec() == old(self).draining_spec(),
            final(self).limits_spec() == old(self).limits_spec(),
            final(self).hash_key_spec() == old(self).hash_key_spec(),
            match key_index_by_view(old(self).table(), lease.key()@) {
                None => limiter is None && final(self).table() == old(self).table(),
                Some(i) => limiter matches Some(l) && *l == old(self).table()[i].1.connection_rate
                    && final(self).table() == old(self).table().update(
                    i,
                    (old(self).table()[i].0, TokenState { connection_rate: *final(l), ..old(self).table()[i].1 }),
                ),
            },
    {
        match self.find_token(&lease.token_key) {
            Some(i) => Some(&mut self.tokens[i].1.connection_rate),
            None => None,
        }
    }

    /// The bandwidth limiter of a session's token.
    pub fn bandwidth_mut(&mut self, lease: &SessionLease) -> (limiter: Option<&mut B>)
        requires
            old(self).wf(),
        ensures
            final(self).wf(),
            final(self).session_total() == old(self).session_total(),
            final(self).stream_total() == old(self).stream_total(),
            final(self).draining_spec() == old(self).draining_spec(),
            final(self).limits_spec() == old(self).limits_spec(),
            final(self).hash_key_spec() == old(self).hash_key_spec(),
            match key_index_by_view(old(self).table(), lease.key()@) {
                None => limiter is None && final(self).table() == old(self).table(),
                Some(i) => limiter matches Some(l) && *l == old(self).table()[i].1.bandwidth
                    && final(self).table() == old(self).table().update(
                    i,
                    (old(self).table()[i].0, TokenState { bandwidth: *final(l), ..old(self).table()[i].1 }),
                ),
            },
    {
        match self.find_token(&lease.token_key) {
            Some(i) => Some(&mut self.tokens[i].1.bandwidth),
            None => None,
        }
    }
}

} // verus!
