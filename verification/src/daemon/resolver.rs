//! The resolver's decisions: which upstream answers next, what a connect
//! resolution may return, what a client's DNS-wire query may ask, and the
//! alias-following lookups that alternate with upstream exchanges. The
//! exchanges themselves are made by the caller, which hands each response
//! back.
use vstd::prelude::*;
use vstd::utf8::{encode_utf8, valid_utf8};

use crate::address::{be_value, lemma_be_value_bound, pow256, same_address, v4_value, v6_value};
use crate::crypto::fill_random;
use crate::daemon::acl::{canonical_form, canonical_hostname, policy_denied, AclEngine};
use crate::daemon::config::DnsConfig;
use crate::daemon::dns::{
    address_views, be16, build_query, ip_bytes, labels_encodable, name_at, parse_response, query_bytes,
    read_name, read_u16, response_outcome, split_dots, IpAddress, DNS_HEADER_BYTES, TYPE_A, TYPE_AAAA,
};
use crate::daemon::error::{GatewayError, GatewayErrorCode};
use crate::text::{bytes_equal, bytes_of_string, string_from_utf8, text_bytes};

verus! {

/// The order addresses are kept in: IPv4 before IPv6, each by numeric value.
pub open spec fn address_key(a: IpAddress) -> int {
    match a {
        IpAddress::V4(o) => be_value(o@) as int,
        IpAddress::V6(o) => (pow256(4) + be_value(o@)) as int,
    }
}

proof fn lemma_be_value_injective(a: Seq<u8>, b: Seq<u8>)
    requires
        a.len() == b.len(),
        be_value(a) == be_value(b),
    ensures
        a == b,
    decreases a.len(),
{
    if a.len() > 0 {
        let x = be_value(a.drop_last());
        let y = be_value(b.drop_last());
        let p = a.last() as int;
        let q = b.last() as int;
        assert(x * 256 + p == y * 256 + q);
        assert(p == q && x == y) by (nonlinear_arith)
            requires x * 256 + p == y * 256 + q, 0 <= p < 256, 0 <= q < 256, x >= 0, y >= 0;
        lemma_be_value_injective(a.drop_last(), b.drop_last());
        assert(a =~= a.drop_last().push(a.last()));
        assert(b =~= b.drop_last().push(b.last()));
    }
}

/// Different addresses have different keys.
pub proof fn lemma_address_key_injective(a: IpAddress, b: IpAddress)
    requires
        address_key(a) == address_key(b),
    ensures
        a == b,
{
    match (a, b) {
        (IpAddress::V4(x), IpAddress::V4(y)) => {
            lemma_be_value_injective(x@, y@);
            assert(x =~= y);
        },
        (IpAddress::V6(x), IpAddress::V6(y)) => {
            lemma_be_value_injective(x@, y@);
            assert(x =~= y);
        },
        (IpAddress::V4(x), IpAddress::V6(y)) => {
            lemma_be_value_bound(x@);
        },
        (IpAddress::V6(x), IpAddress::V4(y)) => {
            lemma_be_value_bound(y@);
        },
    }
}

fn address_less(a: &IpAddress, b: &IpAddress) -> (less: bool)
    ensures
        less == (address_key(*a) < address_key(*b)),
{
    match (a, b) {
        (IpAddress::V4(x), IpAddress::V4(y)) => v4_value(*x) < v4_value(*y),
        (IpAddress::V6(x), IpAddress::V6(y)) => v6_value(x) < v6_value(y),
        (IpAddress::V4(x), IpAddress::V6(y)) => {
            proof {
                lemma_be_value_bound(x@);
            }
            true
        },
        (IpAddress::V6(x), IpAddress::V4(y)) => {
            proof {
                lemma_be_value_bound(y@);
            }
            false
        },
    }
}

/// Strictly increasing by key: sorted and free of duplicates.
pub open spec fn sorted_set(s: Seq<IpAddress>) -> bool {
    forall|i: int, j: int| 0 <= i < j < s.len() ==> address_key(#[trigger] s[i]) < address_key(#[trigger] s[j])
}

/// Adds an address to a sorted set of addresses.
pub fn insert_address(set: &mut Vec<IpAddress>, address: IpAddress)
    requires
        sorted_set(old(set)@),
    ensures
        sorted_set(final(set)@),
        final(set)@.to_set() == old(set)@.to_set().insert(address),
{
    let ghost before = set@;
    let mut i: usize = 0;
    while i < set.len() && address_less(&set[i], &address)
        invariant
            set@ == before,
            i <= set@.len(),
            forall|k: int| 0 <= k < i ==> address_key(#[trigger] set@[k]) < address_key(address),
        decreases set@.len() - i,
    {
        i = i + 1;
    }
    if i < set.len() && same_address(&set[i], &address) {
        proof {
            assert(before.to_set().contains(address)) by {
                assert(before[i as int] == address);
            }
            assert(before.to_set().insert(address) =~= before.to_set());
        }
        return;
    }
    proof {
        if i < set@.len() {
            assert(address_key(address) <= address_key(set@[i as int]));
            if address_key(address) == address_key(set@[i as int]) {
                lemma_address_key_injective(address, set@[i as int]);
            }
            assert(address_key(address) < address_key(set@[i as int]));
        }
    }
    set.insert(i, address);
    proof {
        let after = set@;
        assert(after =~= before.take(i as int).push(address) + before.skip(i as int));
        assert forall|a: int, b: int| 0 <= a < b < after.len() implies address_key(#[trigger] after[a])
            < address_key(#[trigger] after[b]) by {
            if a < i && b < i {
                assert(after[a] == before[a] && after[b] == before[b]);
            } else if a < i && b == i {
                assert(after[a] == before[a]);
            } else if a < i {
                assert(after[a] == before[a] && after[b] == before[b - 1]);
            } else if a == i {
                assert(after[b] == before[b - 1]);
                if b - 1 > i {
                    assert(address_key(before[i as int]) < address_key(before[b - 1]));
                }
            } else {
                assert(after[a] == before[a - 1] && after[b] == before[b - 1]);
            }
        }
        assert forall|x: IpAddress| after.to_set().contains(x) == before.to_set().insert(address).contains(x) by {
            if after.to_set().contains(x) {
                let k = choose|k: int| 0 <= k < after.len() && after[k] == x;
                if k < i {
                    assert(before[k] == x);
                } else if k > i {
                    assert(before[k - 1] == x);
                }
            }
            if before.to_set().contains(x) {
                let k = choose|k: int| 0 <= k < before.len() && before[k] == x;
                if k < i {
                    assert(after[k] == x);
                } else {
                    assert(after[k + 1] == x);
                }
            }
            if x == address {
                assert(after[i as int] == x);
            }
        }
        assert(after.to_set() =~= before.to_set().insert(address));
    }
}

/// Adds every address of `more` to a sorted set.
pub fn insert_addresses(set: &mut Vec<IpAddress>, more: &Vec<IpAddress>)
    requires
        sorted_set(old(set)@),
    ensures
        sorted_set(final(set)@),
        final(set)@.to_set() == old(set)@.to_set() + more@.to_set(),
{
    let mut i: usize = 0;
    while i < more.len()
        invariant
            i <= more@.len(),
            sorted_set(set@),
            set@.to_set() == old(set)@.to_set() + more@.take(i as int).to_set(),
        decreases more@.len() - i,
    {
        let ghost before = set@;
        insert_address(set, more[i]);
        proof {
            assert(more@.take(i + 1) =~= more@.take(i as int).push(more@[i as int]));
            more@.take(i as int).lemma_push_to_set_commute(more@[i as int]);
            assert(set@.to_set() =~= old(set)@.to_set() + more@.take(i + 1).to_set());
        }
        i = i + 1;
    }
    proof {
        assert(more@.take(more@.len() as int) =~= more@);
    }
}

/// What a connect resolution found: its addresses (a sorted set), the aliases
/// followed and the response bytes read.
#[derive(Clone, Debug)]
pub struct Resolution {
    pub addresses: Vec<IpAddress>,
    pub cname_depth: usize,
    pub response_bytes: usize,
}

/// A resolution may be used when it holds 1 to `max_addresses` addresses,
/// followed at most `max_cname_depth` aliases and read at most four maximal
/// responses; an acceptable one whose address the policy refuses is a
/// rebinding attempt.
pub open spec fn resolution_check(resolution: Resolution, config: DnsConfig, acl: AclEngine) -> Option<GatewayErrorCode> {
    let n = resolution.addresses@.len();
    if n == 0 || n > config.max_addresses || resolution.cname_depth > config.max_cname_depth
        || resolution.response_bytes > config.max_response_bytes * 4 {
        Some(GatewayErrorCode::DnsFailure)
    } else if exists|i: int| 0 <= i < n && !acl.ip_allowed(#[trigger] resolution.addresses@[i]) {
        Some(GatewayErrorCode::DnsRebinding)
    } else {
        None
    }
}

/// Checks a resolution before anything dials it.
pub fn validate_resolution(resolution: &Resolution, config: &DnsConfig, acl: &AclEngine) -> (result: Result<(), GatewayError>)
    requires
        acl.wf(),
    ensures
        match resolution_check(*resolution, *config, *acl) {
            None => result is Ok,
            Some(code) => result matches Err(e) && e.code == code,
        },
{
    let n = resolution.addresses.len();
    if n == 0 || n > config.max_addresses || resolution.cname_depth > config.max_cname_depth
        || resolution.response_bytes as u128 > config.max_response_bytes as u128 * 4 {
        return Err(GatewayError::new(GatewayErrorCode::DnsFailure));
    }
    let mut i: usize = 0;
    while i < n
        invariant
            n == resolution.addresses@.len(),
            0 < n <= config.max_addresses,
            resolution.cname_depth <= config.max_cname_depth,
            resolution.response_bytes <= config.max_response_bytes * 4,
            acl.wf(),
            i <= n,
            forall|k: int| 0 <= k < i ==> acl.ip_allowed(#[trigger] resolution.addresses@[k]),
        decreases n - i,
    {
        if acl.check_ip(&resolution.addresses[i]).is_err() {
            proof {
                assert(!acl.ip_allowed(resolution.addresses@[i as int]));
            }
            return Err(GatewayError::new(GatewayErrorCode::DnsRebinding));
        }
        i = i + 1;
    }
    Ok(())
}

/// The question of a client's DNS-wire query.
#[derive(Clone, Debug)]
pub struct ClientQuestion {
    pub id: u16,
    pub name: String,
}

/// What a client's query may be: a header and one question, nothing else,
/// within `max_bytes`; EDNS is refused, which also keeps client subnets from
/// being forwarded. Yields the query id and the question's name.
pub open spec fn client_query_check(query: Seq<u8>, max_bytes: usize) -> Result<(u16, Seq<u8>), GatewayErrorCode> {
    if query.len() < DNS_HEADER_BYTES || query.len() > max_bytes {
        Err(GatewayErrorCode::MessageTooLarge)
    } else if be16(query, 2) >= 32768 || be16(query, 4) != 1 || be16(query, 6) != 0 || be16(query, 8) != 0
        || be16(query, 10) != 0 {
        Err(GatewayErrorCode::ProtocolViolation)
    } else {
        match name_at(query, DNS_HEADER_BYTES as int) {
            None => Err(GatewayErrorCode::DnsFailure),
            Some((name, end)) => if end + 4 != query.len() {
                Err(GatewayErrorCode::ProtocolViolation)
            } else if canonical_form(name) is None {
                Err(GatewayErrorCode::PolicyDenied)
            } else {
                Ok((be16(query, 0), name))
            },
        }
    }
}

/// Checks a client's DNS-wire query before it is forwarded.
pub fn validate_client_query(query: &[u8], max_bytes: usize) -> (result: Result<ClientQuestion, GatewayError>)
    ensures
        match client_query_check(query@, max_bytes) {
            Ok((id, name)) => result matches Ok(q) && q.id == id && encode_utf8(q.name@) == name,
            Err(code) => result matches Err(e) && e.code == code,
        },
{
    if query.len() < DNS_HEADER_BYTES || query.len() > max_bytes {
        return Err(GatewayError::new(GatewayErrorCode::MessageTooLarge));
    }
    let flags = read_u16(query, 2)?;
    let questions = read_u16(query, 4)?;
    let answers = read_u16(query, 6)?;
    let authorities = read_u16(query, 8)?;
    let additional = read_u16(query, 10)?;
    if flags >= 32768 || questions != 1 || answers != 0 || authorities != 0 || additional != 0 {
        return Err(GatewayError::new(GatewayErrorCode::ProtocolViolation));
    }
    let (name, cursor) = read_name(query, DNS_HEADER_BYTES)?;
    if cursor as u128 + 4 != query.len() as u128 {
        return Err(GatewayError::new(GatewayErrorCode::ProtocolViolation));
    }
    let _ = canonical_hostname(&name)?;
    let id = read_u16(query, 0)?;
    Ok(ClientQuestion { id, name })
}

/// What the answer to a forwarded client query must satisfy: it answers the
/// question, follows at most `max_cname_depth` aliases, and every address in
/// it, in any section, passes the policy.
pub open spec fn wire_answer_check(
    response: Seq<u8>,
    question: (u16, Seq<u8>),
    config: DnsConfig,
    acl: AclEngine,
) -> Option<GatewayErrorCode> {
    match response_outcome(response, question.0, question.1, config.max_records) {
        None => Some(GatewayErrorCode::DnsFailure),
        Some((_, all, _, depth)) => if depth > config.max_cname_depth {
            Some(GatewayErrorCode::DnsFailure)
        } else if exists|i: int| 0 <= i < all.len() && !acl.ip_allowed(#[trigger] address_of(all[i])) {
            Some(GatewayErrorCode::DnsRebinding)
        } else {
            None
        },
    }
}

/// The address whose bytes these are.
pub open spec fn address_of(bytes: Seq<u8>) -> IpAddress {
    if bytes.len() == 4 {
        IpAddress::V4([bytes[0], bytes[1], bytes[2], bytes[3]])
    } else {
        IpAddress::V6(
            [
                bytes[0],
                bytes[1],
                bytes[2],
                bytes[3],
                bytes[4],
                bytes[5],
                bytes[6],
                bytes[7],
                bytes[8],
                bytes[9],
                bytes[10],
                bytes[11],
                bytes[12],
                bytes[13],
                bytes[14],
                bytes[15],
            ],
        )
    }
}

proof fn lemma_address_of_bytes(a: IpAddress)
    ensures
        address_of(ip_bytes(a)) == a,
{
    match a {
        IpAddress::V4(o) => {
            assert(o@.len() == 4);
            assert([o@[0], o@[1], o@[2], o@[3]] =~= o);
        },
        IpAddress::V6(o) => {
            assert(o@.len() == 16);
            let r = [
                o@[0],
                o@[1],
                o@[2],
                o@[3],
                o@[4],
                o@[5],
                o@[6],
                o@[7],
                o@[8],
                o@[9],
                o@[10],
                o@[11],
                o@[12],
                o@[13],
                o@[14],
                o@[15],
            ];
            assert(r =~= o);
        },
    }
}

/// Checks the upstream's answer to a forwarded client query; the response
/// goes back to the client only when this succeeds.
pub fn check_wire_answer(
    response: &[u8],
    question: &ClientQuestion,
    config: &DnsConfig,
    acl: &AclEngine,
) -> (result: Result<(), GatewayError>)
    requires
        acl.wf(),
    ensures
        match wire_answer_check(response@, (question.id, encode_utf8(question.name@)), *config, *acl) {
            None => result is Ok,
            Some(code) => result matches Err(e) && e.code == code,
        },
{
    let parsed = parse_response(response, question.id, question.name.as_str(), config.max_records)?;
    if parsed.cname_depth > config.max_cname_depth {
        return Err(GatewayError::new(GatewayErrorCode::DnsFailure));
    }
    let ghost all = address_views(parsed.all_addresses@);
    let mut i: usize = 0;
    while i < parsed.all_addresses.len()
        invariant
            acl.wf(),
            all == address_views(parsed.all_addresses@),
            response_outcome(response@, question.id, encode_utf8(question.name@), config.max_records) == Some(
                (
                    address_views(parsed.addresses@),
                    all,
                    parsed.terminal_name@,
                    parsed.cname_depth as nat,
                ),
            ),
            parsed.cname_depth <= config.max_cname_depth,
            i <= parsed.all_addresses@.len(),
            forall|k: int| 0 <= k < i ==> acl.ip_allowed(#[trigger] address_of(all[k])),
        decreases parsed.all_addresses@.len() - i,
    {
        proof {
            lemma_address_of_bytes(parsed.all_addresses@[i as int]);
        }
        if acl.check_ip(&parsed.all_addresses[i]).is_err() {
            proof {
                assert(!acl.ip_allowed(address_of(all[i as int])));
            }
            return Err(GatewayError::new(GatewayErrorCode::DnsRebinding));
        }
        i = i + 1;
    }
    Ok(())
}

proof fn lemma_views_contain(v: Seq<IpAddress>, a: IpAddress)
    ensures
        v.contains(a) <==> address_views(v).contains(ip_bytes(a)),
{
    if v.contains(a) {
        let k = choose|k: int| 0 <= k < v.len() && v[k] == a;
        assert(address_views(v)[k] == ip_bytes(a));
    }
    if address_views(v).contains(ip_bytes(a)) {
        let k = choose|k: int| 0 <= k < address_views(v).len() && address_views(v)[k] == ip_bytes(a);
        lemma_address_of_bytes(a);
        lemma_address_of_bytes(v[k]);
        assert(v[k] == a);
    }
}

/// The addresses a connect resolution holds once a lookup's answer (as
/// address bytes) is merged into those found so far.
pub open spec fn merged_addresses(so_far: Seq<IpAddress>, found: Seq<Seq<u8>>) -> Set<IpAddress> {
    Set::new(|a: IpAddress| so_far.contains(a) || found.contains(ip_bytes(a)))
}

/// `resolution_check` of a resolution that holds exactly `addresses`.
pub open spec fn merged_check(
    addresses: Set<IpAddress>,
    cname_depth: nat,
    response_bytes: nat,
    config: DnsConfig,
    acl: AclEngine,
) -> Option<GatewayErrorCode> {
    if addresses.len() == 0 || addresses.len() > config.max_addresses || cname_depth > config.max_cname_depth
        || response_bytes > config.max_response_bytes * 4 {
        Some(GatewayErrorCode::DnsFailure)
    } else if exists|a: IpAddress| addresses.contains(a) && !#[trigger] acl.ip_allowed(a) {
        Some(GatewayErrorCode::DnsRebinding)
    } else {
        None
    }
}

proof fn lemma_merged_check(r: Resolution, merged: Set<IpAddress>, config: DnsConfig, acl: AclEngine)
    requires
        sorted_set(r.addresses@),
        r.addresses@.to_set() == merged,
    ensures
        r.addresses@.len() == merged.len(),
        merged_check(merged, r.cname_depth as nat, r.response_bytes as nat, config, acl) == resolution_check(
            r,
            config,
            acl,
        ),
{
    let s = r.addresses@;
    assert(s.no_duplicates()) by {
        assert forall|i: int, j: int| 0 <= i < s.len() && 0 <= j < s.len() && i != j implies s[i] != s[j] by {
            if i < j {
                assert(address_key(s[i]) < address_key(s[j]));
            } else {
                assert(address_key(s[j]) < address_key(s[i]));
            }
        }
    }
    s.unique_seq_to_set();
    if exists|i: int| 0 <= i < s.len() && !acl.ip_allowed(#[trigger] s[i]) {
        let i = choose|i: int| 0 <= i < s.len() && !acl.ip_allowed(#[trigger] s[i]);
        assert(merged.contains(s[i]));
    }
    if exists|a: IpAddress| merged.contains(a) && !#[trigger] acl.ip_allowed(a) {
        let a = choose|a: IpAddress| merged.contains(a) && !#[trigger] acl.ip_allowed(a);
        assert(s.to_set().contains(a));
        let i = choose|i: int| 0 <= i < s.len() && s[i] == a;
        assert(!acl.ip_allowed(s[i]));
    }
}

/// Round-robin over the configured upstreams.
#[derive(Debug)]
pub struct UpstreamCursor {
    next: usize,
}

impl UpstreamCursor {
    pub closed spec fn position(&self) -> usize {
        self.next
    }

    pub fn new() -> (cursor: Self)
        ensures
            cursor.position() == 0,
    {
        UpstreamCursor { next: 0 }
    }

    /// The upstream for the next exchange, out of `count`.
    pub fn pick(&mut self, count: usize) -> (index: usize)
        requires
            count > 0,
        ensures
            index == old(self).position() % count,
            index < count,
            final(self).position() == if old(self).position() == usize::MAX {
                0
            } else {
                (old(self).position() + 1) as usize
            },
    {
        let index = self.next % count;
        self.next = if self.next == usize::MAX {
            0
        } else {
            self.next + 1
        };
        index
    }
}

/// A fresh random query id, or `Internal` when the system has no entropy.
fn random_id() -> (result: Result<u16, GatewayError>)
    ensures
        result matches Err(e) ==> e.code == GatewayErrorCode::Internal,
{
    let mut bytes = [0u8; 2];
    if !fill_random(&mut bytes) {
        return Err(GatewayError::new(GatewayErrorCode::Internal));
    }
    Ok(bytes[0] as u16 * 256 + bytes[1] as u16)
}

/// What one response does to a lookup.
pub enum LookupStep {
    /// The lookup ended with these addresses, possibly none.
    Found(Vec<IpAddress>),
    /// The name is an alias; the lookup continues with its target.
    Again,
}

/// One lookup of one record type, following aliases across queries: never
/// the same name twice, and at most the configured number of aliases in all.
#[derive(Debug)]
pub struct NameLookup {
    record_type: u16,
    current: String,
    visited: Vec<Vec<u8>>,
    total_depth: usize,
    response_bytes: usize,
    query_id: u16,
}

pub open spec fn byte_views(v: Seq<Vec<u8>>) -> Seq<Seq<u8>> {
    v.map_values(|b: Vec<u8>| b@)
}

/// A lookup refuses to go on at a name it already asked for, or once more
/// aliases than allowed were followed.
pub open spec fn chain_refused(visited: Seq<Seq<u8>>, current: Seq<u8>, depth: nat, max_cname_depth: usize) -> bool {
    visited.contains(current) || depth > max_cname_depth
}

impl NameLookup {
    pub closed spec fn kind(&self) -> u16 {
        self.record_type
    }

    pub closed spec fn name(&self) -> Seq<u8> {
        text_bytes(self.current)
    }

    pub closed spec fn asked(&self) -> Seq<Seq<u8>> {
        byte_views(self.visited@)
    }

    pub closed spec fn depth(&self) -> nat {
        self.total_depth as nat
    }

    pub closed spec fn bytes_read(&self) -> nat {
        self.response_bytes as nat
    }

    pub closed spec fn pending_id(&self) -> u16 {
        self.query_id
    }

    /// A lookup that starts at `hostname`.
    pub fn new(hostname: &String, record_type: u16) -> (lookup: Self)
        ensures
            lookup.kind() == record_type,
            lookup.name() == text_bytes(*hostname),
            lookup.asked().len() == 0,
            lookup.depth() == 0,
            lookup.bytes_read() == 0,
    {
        let lookup = NameLookup {
            record_type,
            current: hostname.clone(),
            visited: Vec::new(),
            total_depth: 0,
            response_bytes: 0,
            query_id: 0,
        };
        proof {
            assert(lookup.asked() =~= Seq::<Seq<u8>>::empty());
        }
        lookup
    }

    /// The next query: for the current name under a fresh random id.
    pub fn begin_query(&mut self, max_cname_depth: usize) -> (result: Result<Vec<u8>, GatewayError>)
        ensures
            final(self).kind() == old(self).kind(),
            final(self).name() == old(self).name(),
            final(self).depth() == old(self).depth(),
            final(self).bytes_read() == old(self).bytes_read(),
            chain_refused(old(self).asked(), old(self).name(), old(self).depth(), max_cname_depth) ==> {
                &&& result matches Err(e) && e.code == GatewayErrorCode::DnsFailure
                &&& final(self).asked() == old(self).asked()
            },
            !chain_refused(old(self).asked(), old(self).name(), old(self).depth(), max_cname_depth) ==> {
                &&& final(self).asked() == old(self).asked().push(old(self).name())
                &&& result matches Ok(q) ==> labels_encodable(split_dots(old(self).name())) && q@ == query_bytes(
                    final(self).pending_id(),
                    old(self).name(),
                    old(self).kind(),
                )
                &&& result matches Err(e) ==> e.code == GatewayErrorCode::Internal || (e.code
                    == GatewayErrorCode::DnsFailure && !labels_encodable(split_dots(old(self).name())))
                &&& labels_encodable(split_dots(old(self).name())) ==> (result is Ok || (result matches Err(e)
                    && e.code == GatewayErrorCode::Internal))
            },
    {
        let name = bytes_of_string(&self.current);
        let mut seen = false;
        let mut i: usize = 0;
        while i < self.visited.len()
            invariant
                i <= self.visited@.len(),
                name@ == text_bytes(self.current),
                seen <==> exists|k: int| 0 <= k < i && #[trigger] self.visited@[k]@ == name@,
            decreases self.visited@.len() - i,
        {
            if bytes_equal(self.visited[i].as_slice(), name) {
                seen = true;
            }
            i = i + 1;
        }
        proof {
            let asked = byte_views(self.visited@);
            if seen {
                let k = choose|k: int| 0 <= k < self.visited@.len() && #[trigger] self.visited@[k]@ == name@;
                assert(asked[k] == name@);
            } else {
                assert forall|k: int| 0 <= k < asked.len() implies asked[k] != name@ by {
                    assert(asked[k] == self.visited@[k]@);
                }
            }
        }
        if seen || self.total_depth > max_cname_depth {
            return Err(GatewayError::new(GatewayErrorCode::DnsFailure));
        }
        let mut copy: Vec<u8> = Vec::new();
        crate::text::append_bytes(&mut copy, name);
        let ghost before = self.visited@;
        self.visited.push(copy);
        proof {
            assert(copy@ =~= name@);
            assert(byte_views(self.visited@) =~= byte_views(before).push(name@));
        }
        let id = random_id()?;
        self.query_id = id;
        build_query(id, self.current.as_str(), self.record_type)
    }

    /// Takes the response to the pending query.
    pub fn on_response(&mut self, response: &[u8], max_records: usize, max_cname_depth: usize) -> (result: Result<LookupStep, GatewayError>)
        ensures
            final(self).kind() == old(self).kind(),
            final(self).asked() == old(self).asked(),
            final(self).pending_id() == old(self).pending_id(),
            old(self).bytes_read() + response@.len() > usize::MAX ==> (result matches Err(e) && e.code
                == GatewayErrorCode::MessageTooLarge),
            old(self).bytes_read() + response@.len() <= usize::MAX ==> match response_outcome(
                response@,
                old(self).pending_id(),
                old(self).name(),
                max_records,
            ) {
                None => result matches Err(e) && e.code == GatewayErrorCode::DnsFailure,
                Some((addresses, _, terminal, depth)) => if old(self).depth() + depth > max_cname_depth {
                    result matches Err(e) && e.code == GatewayErrorCode::DnsFailure
                } else {
                    &&& final(self).bytes_read() == old(self).bytes_read() + response@.len()
                    &&& final(self).depth() == old(self).depth() + depth
                    &&& if addresses.len() > 0 {
                        result matches Ok(LookupStep::Found(v)) && address_views(v@) == addresses
                            && final(self).name() == old(self).name()
                    } else if terminal == old(self).name() {
                        result matches Ok(LookupStep::Found(v)) && v@.len() == 0 && final(self).name() == old(
                            self,
                        ).name()
                    } else if !valid_utf8(terminal) {
                        result matches Err(e) && e.code == GatewayErrorCode::DnsFailure
                    } else {
                        result matches Ok(LookupStep::Again) && final(self).name() == terminal
                    }
                },
            },
    {
        if self.response_bytes > usize::MAX - response.len() {
            return Err(GatewayError::new(GatewayErrorCode::MessageTooLarge));
        }
        let parsed = parse_response(response, self.query_id, self.current.as_str(), max_records)?;
        if self.total_depth > max_cname_depth || parsed.cname_depth > max_cname_depth - self.total_depth {
            return Err(GatewayError::new(GatewayErrorCode::DnsFailure));
        }
        self.response_bytes = self.response_bytes + response.len();
        self.total_depth = self.total_depth + parsed.cname_depth;
        if parsed.addresses.len() > 0 {
            return Ok(LookupStep::Found(parsed.addresses));
        }
        let current = bytes_of_string(&self.current);
        if bytes_equal(parsed.terminal_name.as_slice(), current) {
            return Ok(LookupStep::Found(Vec::new()));
        }
        match string_from_utf8(parsed.terminal_name) {
            Some(next) => {
                self.current = next;
                Ok(LookupStep::Again)
            },
            None => Err(GatewayError::new(GatewayErrorCode::DnsFailure)),
        }
    }
}

/// A connect resolution: A then AAAA records of one canonical name, merged
/// into a sorted set and checked; with revalidation on, everything is done a
/// second time and only the second, independently checked answer is used.
#[derive(Debug)]
pub struct ConnectResolution {
    hostname: String,
    second_pass: bool,
    querying_aaaa: bool,
    lookup: NameLookup,
    addresses: Vec<IpAddress>,
    cname_depth: usize,
    response_bytes: usize,
}

impl ConnectResolution {
    pub closed spec fn host(&self) -> Seq<u8> {
        text_bytes(self.hostname)
    }

    pub closed spec fn on_second_pass(&self) -> bool {
        self.second_pass
    }

    pub closed spec fn on_aaaa(&self) -> bool {
        self.querying_aaaa
    }

    pub closed spec fn current(&self) -> NameLookup {
        self.lookup
    }

    pub closed spec fn found(&self) -> Seq<IpAddress> {
        self.addresses@
    }

    pub closed spec fn pass_depth(&self) -> usize {
        self.cname_depth
    }

    pub closed spec fn pass_bytes(&self) -> usize {
        self.response_bytes
    }

    pub closed spec fn wf(&self) -> bool {
        &&& sorted_set(self.addresses@)
        &&& self.lookup.record_type == if self.querying_aaaa { TYPE_AAAA } else { TYPE_A }
    }

    /// A fresh pass: the A lookup of the name, nothing found yet.
    pub open spec fn at_pass_start(&self) -> bool {
        &&& self.wf()
        &&& !self.on_aaaa()
        &&& self.current().kind() == TYPE_A
        &&& self.current().name() == self.host()
        &&& self.current().asked().len() == 0
        &&& self.current().depth() == 0
        &&& self.current().bytes_read() == 0
        &&& self.found().len() == 0
        &&& self.pass_depth() == 0
        &&& self.pass_bytes() == 0
    }

    /// Starts resolving `hostname`, which must be a plain DNS name
    /// (`PolicyDenied` otherwise); it is resolved in canonical form.
    pub fn start(hostname: &str) -> (result: Result<Self, GatewayError>)
        ensures
            match canonical_form(encode_utf8(hostname@)) {
                Some(c) => result matches Ok(r) && r.host() == c && r.at_pass_start() && !r.on_second_pass(),
                None => result == Err::<Self, GatewayError>(policy_denied()),
            },
    {
        let hostname = canonical_hostname(hostname)?;
        Ok(ConnectResolution::start_pass(hostname, false))
    }

    fn start_pass(hostname: String, second_pass: bool) -> (r: Self)
        ensures
            r.host() == text_bytes(hostname),
            r.at_pass_start(),
            r.on_second_pass() == second_pass,
    {
        let lookup = NameLookup::new(&hostname, TYPE_A);
        let r = ConnectResolution {
            hostname,
            second_pass,
            querying_aaaa: false,
            lookup,
            addresses: Vec::new(),
            cname_depth: 0,
            response_bytes: 0,
        };
        r
    }

    /// The next query to send, as `NameLookup::begin_query` describes.
    pub fn next_query(&mut self, config: &DnsConfig) -> (result: Result<Vec<u8>, GatewayError>)
        requires
            old(self).wf(),
        ensures
            final(self).wf(),
            final(self).host() == old(self).host(),
            final(self).on_second_pass() == old(self).on_second_pass(),
            final(self).on_aaaa() == old(self).on_aaaa(),
            final(self).found() == old(self).found(),
            final(self).pass_depth() == old(self).pass_depth(),
            final(self).pass_bytes() == old(self).pass_bytes(),
            final(self).current().kind() == old(self).current().kind(),
            final(self).current().name() == old(self).current().name(),
            final(self).current().depth() == old(self).current().depth(),
            final(self).current().bytes_read() == old(self).current().bytes_read(),
            chain_refused(
                old(self).current().asked(),
                old(self).current().name(),
                old(self).current().depth(),
                config.max_cname_depth,
            ) ==> (result matches Err(e) && e.code == GatewayErrorCode::DnsFailure),
            !chain_refused(
                old(self).current().asked(),
                old(self).current().name(),
                old(self).current().depth(),
                config.max_cname_depth,
            ) ==> {
                &&& final(self).current().asked() == old(self).current().asked().push(old(self).current().name())
                &&& result matches Ok(q) ==> q@ == query_bytes(
                    final(self).current().pending_id(),
                    old(self).current().name(),
                    old(self).current().kind(),
                )
                &&& result matches Err(e) ==> e.code == GatewayErrorCode::Internal || (e.code
                    == GatewayErrorCode::DnsFailure && !labels_encodable(split_dots(old(self).current().name())))
            },
    {
        self.lookup.begin_query(config.max_cname_depth)
    }

    /// Takes the response to the pending query. A finished pass yields its
    /// resolution only after `validate_resolution` accepted it, so an address
    /// the policy refuses never leaves this function.
    pub fn on_response(&mut self, response: &[u8], config: &DnsConfig, acl: &AclEngine) -> (result: Result<
        Option<Resolution>,
        GatewayError,
    >)
        requires
            old(self).wf(),
            acl.wf(),
        ensures
            final(self).wf(),
            final(self).host() == old(self).host(),
            ({
                let lookup = old(self).current();
                if lookup.bytes_read() + response@.len() > usize::MAX {
                    result matches Err(e) && e.code == GatewayErrorCode::MessageTooLarge
                } else {
                    match response_outcome(response@, lookup.pending_id(), lookup.name(), config.max_records) {
                        None => result matches Err(e) && e.code == GatewayErrorCode::DnsFailure,
                        Some((found, _, terminal, depth)) => if lookup.depth() + depth > config.max_cname_depth {
                            result matches Err(e) && e.code == GatewayErrorCode::DnsFailure
                        } else if found.len() == 0 && terminal != lookup.name() {
                            if !valid_utf8(terminal) {
                                result matches Err(e) && e.code == GatewayErrorCode::DnsFailure
                            } else {
                                &&& result == Ok::<Option<Resolution>, GatewayError>(None)
                                &&& final(self).current().name() == terminal
                                &&& final(self).current().kind() == lookup.kind()
                                &&& final(self).current().asked() == lookup.asked()
                                &&& final(self).current().depth() == lookup.depth() + depth
                                &&& final(self).current().bytes_read() == lookup.bytes_read() + response@.len()
                                &&& final(self).on_aaaa() == old(self).on_aaaa()
                                &&& final(self).on_second_pass() == old(self).on_second_pass()
                                &&& final(self).found() == old(self).found()
                                &&& final(self).pass_depth() == old(self).pass_depth()
                                &&& final(self).pass_bytes() == old(self).pass_bytes()
                            }
                        } else {
                            let bytes = old(self).pass_bytes() + lookup.bytes_read() + response@.len();
                            let total_depth = if lookup.depth() + depth > old(self).pass_depth() {
                                lookup.depth() + depth
                            } else {
                                old(self).pass_depth() as nat
                            };
                            let merged = merged_addresses(old(self).found(), found);
                            if bytes > usize::MAX {
                                result matches Err(e) && e.code == GatewayErrorCode::MessageTooLarge
                            } else if !old(self).on_aaaa() {
                                &&& result == Ok::<Option<Resolution>, GatewayError>(None)
                                &&& final(self).on_aaaa()
                                &&& final(self).on_second_pass() == old(self).on_second_pass()
                                &&& final(self).current().kind() == TYPE_AAAA
                                &&& final(self).current().name() == old(self).host()
                                &&& final(self).current().asked().len() == 0
                                &&& final(self).current().depth() == 0
                                &&& final(self).current().bytes_read() == 0
                                &&& final(self).found().to_set() == merged
                                &&& final(self).pass_bytes() == bytes
                                &&& final(self).pass_depth() == total_depth
                            } else {
                                match merged_check(merged, total_depth, bytes as nat, *config, *acl) {
                                    Some(code) => result matches Err(e) && e.code == code,
                                    None => if !old(self).on_second_pass() && config.revalidate {
                                        &&& result == Ok::<Option<Resolution>, GatewayError>(None)
                                        &&& final(self).at_pass_start()
                                        &&& final(self).on_second_pass()
                                    } else {
                                        result matches Ok(Some(r)) && sorted_set(r.addresses@)
                                            && r.addresses@.to_set() == merged && r.cname_depth == total_depth
                                            && r.response_bytes == bytes && resolution_check(r, *config, *acl) is None
                                    },
                                }
                            }
                        },
                    }
                }
            }),
    {
        let ghost old_self = *self;
        let step = self.lookup.on_response(response, config.max_records, config.max_cname_depth)?;
        let found = match step {
            LookupStep::Again => {
                return Ok(None);
            },
            LookupStep::Found(found) => found,
        };
        let ghost outcome = response_outcome(
            response@,
            old_self.lookup.query_id,
            text_bytes(old_self.lookup.current),
            config.max_records,
        );
        let ghost found_views = match outcome {
            Some(o) => o.0,
            None => Seq::empty(),
        };
        proof {
            if found_views.len() == 0 {
                assert(address_views(found@) =~= found_views);
            }
            assert(address_views(found@) == found_views);
        }
        if self.response_bytes > usize::MAX - self.lookup.response_bytes {
            return Err(GatewayError::new(GatewayErrorCode::MessageTooLarge));
        }
        let response_bytes = self.response_bytes + self.lookup.response_bytes;
        let cname_depth = if self.lookup.total_depth > self.cname_depth {
            self.lookup.total_depth
        } else {
            self.cname_depth
        };
        let mut addresses = Vec::new();
        std::mem::swap(&mut addresses, &mut self.addresses);
        let ghost before = addresses@;
        insert_addresses(&mut addresses, &found);
        proof {
            let merged = merged_addresses(before, found_views);
            assert forall|a: IpAddress| #[trigger] merged.contains(a) == addresses@.to_set().contains(a) by {
                assert(addresses@.to_set().contains(a) == (before.to_set().contains(a)
                    || found@.to_set().contains(a)));
                lemma_views_contain(found@, a);
            }
            assert(addresses@.to_set() =~= merged);
        }
        if !self.querying_aaaa {
            self.addresses = addresses;
            self.response_bytes = response_bytes;
            self.cname_depth = cname_depth;
            self.querying_aaaa = true;
            self.lookup = NameLookup::new(&self.hostname, TYPE_AAAA);
            return Ok(None);
        }
        let resolution = Resolution { addresses, cname_depth, response_bytes };
        proof {
            lemma_merged_check(resolution, merged_addresses(before, found_views), *config, *acl);
        }
        if resolution.addresses.len() == 0 || resolution.addresses.len() > config.max_addresses {
            return Err(GatewayError::new(GatewayErrorCode::DnsFailure));
        }
        validate_resolution(&resolution, config, acl)?;
        if !self.second_pass && config.revalidate {
            *self = ConnectResolution::start_pass(self.hostname.clone(), true);
            return Ok(None);
        }
        Ok(Some(resolution))
    }
}

} // verus!
