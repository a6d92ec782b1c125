//! Strict Enhanced route selection over an already authenticated directory.
//! Diversity constraints are hard filters, never score penalties.
use vstd::prelude::*;
use vstd::utf8::encode_utf8;

use crate::multihop::error::{Error, ErrorCode};

verus! {

#[derive(Clone, Copy, Debug, PartialEq, Eq, Hash, Structural)]
pub enum GatewayRole {
    Entry,
    Exit,
}

#[derive(Clone, Copy, Debug, PartialEq, Eq, Structural)]
pub struct ProtocolVersion {
    pub major: u16,
    pub minor: u16,
}

#[derive(Clone, Copy, Debug, PartialEq, Eq, Structural)]
pub enum MaintenanceState {
    Active,
    Draining,
    Maintenance,
}

/// Directory load buckets, from least to most loaded.
#[derive(Clone, Copy, Debug, PartialEq, Eq, Structural)]
pub enum LoadBucket {
    Low,
    Medium,
    High,
    Unknown,
    Saturated,
}

/// The position of a load bucket in its order.
pub open spec fn load_rank(load: LoadBucket) -> nat {
    match load {
        LoadBucket::Low => 0,
        LoadBucket::Medium => 1,
        LoadBucket::High => 2,
        LoadBucket::Unknown => 3,
        LoadBucket::Saturated => 4,
    }
}

fn load_rank_of(load: LoadBucket) -> (rank: u8)
    ensures
        rank == load_rank(load),
{
    match load {
        LoadBucket::Low => 0,
        LoadBucket::Medium => 1,
        LoadBucket::High => 2,
        LoadBucket::Unknown => 3,
        LoadBucket::Saturated => 4,
    }
}

/// Public data-plane metadata. `management_identity` is only an opaque
/// failure-domain label; no management address or credential is present.
#[derive(Clone, Debug, PartialEq, Eq)]
pub struct GatewayDescriptor {
    pub gateway_id: String,
    pub role: GatewayRole,
    pub country_code: String,
    pub provider_id: String,
    pub autonomous_system: u32,
    pub management_identity: String,
    pub protocol_versions: Vec<ProtocolVersion>,
    pub maintenance: MaintenanceState,
    pub load: LoadBucket,
    pub revoked: bool,
}

#[derive(Clone, Debug)]
pub struct RoutePolicy {
    pub exit_country: String,
    pub required_version: ProtocolVersion,
    pub maximum_load: LoadBucket,
}

#[derive(Clone, Debug, PartialEq, Eq)]
pub struct RecentFailure {
    pub gateway_id: String,
    pub consecutive_failures: u8,
}

#[derive(Clone, Debug, PartialEq, Eq)]
pub struct EnhancedRoute {
    pub entry: GatewayDescriptor,
    pub exit: GatewayDescriptor,
    pub protocol_version: ProtocolVersion,
}

/// A two-letter, upper-case ASCII country code, by its UTF-8 bytes.
pub open spec fn country_code_valid(code: Seq<char>) -> bool {
    let bytes = encode_utf8(code);
    &&& bytes.len() == 2
    &&& forall|i: int| 0 <= i < bytes.len() ==> 65 <= #[trigger] bytes[i] <= 90
}

/// Whether `RoutePolicy::validate` accepts a policy.
pub open spec fn policy_valid(policy: RoutePolicy) -> bool {
    &&& country_code_valid(policy.exit_country@)
    &&& policy.required_version.major != 0
    &&& load_rank(policy.maximum_load) < load_rank(LoadBucket::Unknown)
}

/// A gateway that can serve in `role` under `maximum_load`.
pub open spec fn gateway_usable(
    gateway: GatewayDescriptor,
    role: GatewayRole,
    maximum_load: LoadBucket,
) -> bool {
    &&& gateway.role == role
    &&& gateway.gateway_id@.len() > 0
    &&& gateway.provider_id@.len() > 0
    &&& gateway.management_identity@.len() > 0
    &&& gateway.autonomous_system != 0
    &&& !gateway.revoked
    &&& gateway.maintenance == MaintenanceState::Active
    &&& load_rank(gateway.load) <= load_rank(maximum_load)
}

pub open spec fn supports_version(gateway: GatewayDescriptor, version: ProtocolVersion) -> bool {
    gateway.protocol_versions@.contains(version)
}

/// An exit that passes every availability and diversity filter: it shares
/// no provider, autonomous system or management domain with the entry.
pub open spec fn eligible_exit(
    entry: GatewayDescriptor,
    exit: GatewayDescriptor,
    policy: RoutePolicy,
) -> bool {
    &&& gateway_usable(exit, GatewayRole::Exit, policy.maximum_load)
    &&& exit.country_code@ == policy.exit_country@
    &&& supports_version(exit, policy.required_version)
    &&& exit.provider_id@ != entry.provider_id@
    &&& exit.autonomous_system != entry.autonomous_system
    &&& exit.management_identity@ != entry.management_identity@
}

pub open spec fn load_points(load: LoadBucket) -> nat {
    match load {
        LoadBucket::Low => 0,
        LoadBucket::Medium => 100,
        LoadBucket::High => 300,
        LoadBucket::Unknown => 10000,
        LoadBucket::Saturated => 100000,
    }
}

/// The penalty of the first recent-failure record for `gateway_id` at or
/// after position `i`: 1000 per failure, counting at most 8.
pub open spec fn failure_points_from(failures: Seq<RecentFailure>, gateway_id: Seq<char>, i: int) -> nat
    decreases failures.len() - i,
{
    if i < 0 || i >= failures.len() {
        0
    } else if failures[i].gateway_id@ == gateway_id {
        if failures[i].consecutive_failures < 8 {
            failures[i].consecutive_failures as nat * 1000
        } else {
            8000
        }
    } else {
        failure_points_from(failures, gateway_id, i + 1)
    }
}

/// A candidate's score: its load bucket's points plus its failure penalty.
pub open spec fn candidate_score(candidate: GatewayDescriptor, failures: Seq<RecentFailure>) -> nat {
    load_points(candidate.load) + failure_points_from(failures, candidate.gateway_id@, 0)
}

/// Strict lexicographic order of byte strings from position `i` on.
pub open spec fn bytes_before_from(a: Seq<u8>, b: Seq<u8>, i: int) -> bool
    decreases a.len() - i,
{
    if i < 0 || i >= a.len() {
        0 <= i < b.len()
    } else if i >= b.len() {
        false
    } else if a[i] != b[i] {
        a[i] < b[i]
    } else {
        bytes_before_from(a, b, i + 1)
    }
}

/// Strict lexicographic order of byte strings, as `str` orders them.
pub open spec fn bytes_before(a: Seq<u8>, b: Seq<u8>) -> bool {
    bytes_before_from(a, b, 0)
}

proof fn lemma_bytes_before_trans(a: Seq<u8>, b: Seq<u8>, c: Seq<u8>, i: int)
    requires
        0 <= i,
        i <= a.len() && i <= b.len() && i <= c.len(),
        bytes_before_from(a, b, i),
        bytes_before_from(b, c, i),
    ensures
        bytes_before_from(a, c, i),
    decreases a.len() - i,
{
    if i < a.len() && i < b.len() && i < c.len() && a[i] == b[i] && b[i] == c[i] {
        lemma_bytes_before_trans(a, b, c, i + 1);
    }
}

proof fn lemma_bytes_before_total(a: Seq<u8>, b: Seq<u8>, i: int)
    requires
        0 <= i <= a.len(),
        i <= b.len(),
        !bytes_before_from(a, b, i),
        !bytes_before_from(b, a, i),
    ensures
        a.subrange(i, a.len() as int) == b.subrange(i, b.len() as int),
    decreases a.len() - i,
{
    if i < a.len() && i < b.len() {
        lemma_bytes_before_total(a, b, i + 1);
        assert(a.subrange(i, a.len() as int) =~= seq![a[i]] + a.subrange(i + 1, a.len() as int));
        assert(b.subrange(i, b.len() as int) =~= seq![b[i]] + b.subrange(i + 1, b.len() as int));
    } else {
        assert(a.subrange(i, a.len() as int) =~= Seq::<u8>::empty());
        assert(b.subrange(i, b.len() as int) =~= Seq::<u8>::empty());
    }
}

proof fn lemma_bytes_before_irreflexive(a: Seq<u8>, i: int)
    requires
        0 <= i <= a.len(),
    ensures
        !bytes_before_from(a, a, i),
    decreases a.len() - i,
{
    if i < a.len() {
        lemma_bytes_before_irreflexive(a, i + 1);
    }
}

/// `a` ranks strictly before `b`: a lower score, or an equal score and a
/// lower gateway ID.
pub open spec fn ranks_before(
    a: GatewayDescriptor,
    b: GatewayDescriptor,
    failures: Seq<RecentFailure>,
) -> bool {
    ||| candidate_score(a, failures) < candidate_score(b, failures)
    ||| candidate_score(a, failures) == candidate_score(b, failures) && bytes_before(
        encode_utf8(a.gateway_id@),
        encode_utf8(b.gateway_id@),
    )
}

proof fn lemma_ranks_before_step(
    i: GatewayDescriptor,
    b: GatewayDescriptor,
    j: GatewayDescriptor,
    failures: Seq<RecentFailure>,
)
    requires
        ranks_before(i, b, failures),
        !ranks_before(j, b, failures),
    ensures
        ranks_before(i, j, failures),
{
    let bi = encode_utf8(i.gateway_id@);
    let bb = encode_utf8(b.gateway_id@);
    let bj = encode_utf8(j.gateway_id@);
    if candidate_score(i, failures) == candidate_score(b, failures) && candidate_score(j, failures)
        == candidate_score(b, failures) {
        if bytes_before(bb, bj) {
            lemma_bytes_before_trans(bi, bb, bj, 0);
        } else {
            lemma_bytes_before_total(bj, bb, 0);
            assert(bj.subrange(0, bj.len() as int) =~= bj);
            assert(bb.subrange(0, bb.len() as int) =~= bb);
        }
    }
}

proof fn lemma_ranks_before_trans(
    a: GatewayDescriptor,
    b: GatewayDescriptor,
    c: GatewayDescriptor,
    failures: Seq<RecentFailure>,
)
    requires
        ranks_before(a, b, failures),
        ranks_before(b, c, failures),
    ensures
        ranks_before(a, c, failures),
{
    if candidate_score(a, failures) == candidate_score(b, failures) && candidate_score(b, failures)
        == candidate_score(c, failures) {
        lemma_bytes_before_trans(
            encode_utf8(a.gateway_id@),
            encode_utf8(b.gateway_id@),
            encode_utf8(c.gateway_id@),
            0,
        );
    }
}

/// `exits[k]` is the exit chosen among the first `n`: eligible, ranked
/// strictly before every earlier eligible exit and not after any later one.
pub open spec fn selected_among(
    entry: GatewayDescriptor,
    exits: Seq<GatewayDescriptor>,
    policy: RoutePolicy,
    failures: Seq<RecentFailure>,
    k: int,
    n: int,
) -> bool {
    &&& 0 <= k < n <= exits.len()
    &&& eligible_exit(entry, exits[k], policy)
    &&& forall|j: int|
        0 <= j < k && eligible_exit(entry, #[trigger] exits[j], policy) ==> ranks_before(
            exits[k],
            exits[j],
            failures,
        )
    &&& forall|j: int|
        k < j < n && eligible_exit(entry, #[trigger] exits[j], policy) ==> !ranks_before(
            exits[j],
            exits[k],
            failures,
        )
}

/// The exit `select_enhanced_route` picks is unique.
pub proof fn lemma_selection_unique(
    entry: GatewayDescriptor,
    exits: Seq<GatewayDescriptor>,
    policy: RoutePolicy,
    failures: Seq<RecentFailure>,
    k1: int,
    k2: int,
)
    requires
        selected_among(entry, exits, policy, failures, k1, exits.len() as int),
        selected_among(entry, exits, policy, failures, k2, exits.len() as int),
    ensures
        k1 == k2,
{
    if k1 < k2 {
        assert(ranks_before(exits[k2], exits[k1], failures));
    } else if k2 < k1 {
        assert(ranks_before(exits[k1], exits[k2], failures));
    }
}

impl RoutePolicy {
    pub fn validate(&self) -> (result: Result<(), Error>)
        ensures
            result is Ok <==> policy_valid(*self),
            result matches Err(e) ==> e.code == ErrorCode::InvalidConfiguration,
    {
        let bytes = self.exit_country.as_str().as_bytes();
        let mut uppercase = bytes.len() == 2;
        let mut i: usize = 0;
        while uppercase && i < bytes.len()
            invariant
                i <= bytes@.len(),
                bytes@ == encode_utf8(self.exit_country@),
                uppercase ==> bytes@.len() == 2 && forall|j: int|
                    0 <= j < i ==> 65 <= #[trigger] bytes@[j] <= 90,
                !uppercase ==> !country_code_valid(self.exit_country@),
            decreases bytes@.len() - i,
        {
            if bytes[i] < 65 || bytes[i] > 90 {
                uppercase = false;
            }
            i = i + 1;
        }
        if !uppercase || self.required_version.major == 0 || load_rank_of(self.maximum_load) >= 3 {
            return Err(Error::new(ErrorCode::InvalidConfiguration));
        }
        Ok(())
    }
}

fn validate_gateway(gateway: &GatewayDescriptor, role: GatewayRole, maximum_load: LoadBucket) -> (result:
    Result<(), Error>)
    ensures
        result is Ok <==> gateway_usable(*gateway, role, maximum_load),
        result matches Err(e) ==> e.code == ErrorCode::PolicyDenied,
{
    if gateway.role != role || gateway.gateway_id.as_str().is_empty()
        || gateway.provider_id.as_str().is_empty() || gateway.management_identity.as_str().is_empty()
        || gateway.autonomous_system == 0 || gateway.revoked || gateway.maintenance
        != MaintenanceState::Active || load_rank_of(gateway.load) > load_rank_of(maximum_load) {
        return Err(Error::new(ErrorCode::PolicyDenied));
    }
    Ok(())
}

fn supports(gateway: &GatewayDescriptor, required: ProtocolVersion) -> (found: bool)
    ensures
        found == supports_version(*gateway, required),
{
    let mut i: usize = 0;
    while i < gateway.protocol_versions.len()
        invariant
            i <= gateway.protocol_versions@.len(),
            forall|j: int| 0 <= j < i ==> #[trigger] gateway.protocol_versions@[j] != required,
        decreases gateway.protocol_versions@.len() - i,
    {
        let version = gateway.protocol_versions[i];
        if version.major == required.major && version.minor == required.minor {
            return true;
        }
        i = i + 1;
    }
    false
}

fn is_eligible_exit(entry: &GatewayDescriptor, exit: &GatewayDescriptor, policy: &RoutePolicy) -> (eligible:
    bool)
    ensures
        eligible == eligible_exit(*entry, *exit, *policy),
{
    validate_gateway(exit, GatewayRole::Exit, policy.maximum_load).is_ok() && exit.country_code
        == policy.exit_country && supports(exit, policy.required_version) && !(exit.provider_id
        == entry.provider_id) && exit.autonomous_system != entry.autonomous_system && !(
    exit.management_identity == entry.management_identity)
}

fn score_of(candidate: &GatewayDescriptor, failures: &[RecentFailure]) -> (score: u32)
    ensures
        score == candidate_score(*candidate, failures@),
{
    let load: u32 = match candidate.load {
        LoadBucket::Low => 0,
        LoadBucket::Medium => 100,
        LoadBucket::High => 300,
        LoadBucket::Unknown => 10000,
        LoadBucket::Saturated => 100000,
    };
    let mut failure: u32 = 0;
    let mut i: usize = 0;
    while i < failures.len()
        invariant
            i <= failures@.len(),
            load == load_points(candidate.load),
            failure == 0,
            failure_points_from(failures@, candidate.gateway_id@, 0) == failure_points_from(
                failures@,
                candidate.gateway_id@,
                i as int,
            ),
        decreases failures@.len() - i,
    {
        if failures[i].gateway_id == candidate.gateway_id {
            let count = failures[i].consecutive_failures;
            failure = if count < 8 {
                count as u32 * 1000
            } else {
                8000
            };
            return load + failure;
        }
        i = i + 1;
    }
    load + failure
}

/// Whether byte string `a` sorts strictly before `b`.
fn bytes_precede(a: &[u8], b: &[u8]) -> (before: bool)
    ensures
        before == bytes_before(a@, b@),
{
    let mut i: usize = 0;
    while i < a.len() && i < b.len()
        invariant
            i <= a@.len(),
            i <= b@.len(),
            bytes_before(a@, b@) == bytes_before_from(a@, b@, i as int),
            forall|j: int| 0 <= j < i ==> a@[j] == b@[j],
        decreases a@.len() - i,
    {
        if a[i] != b[i] {
            return a[i] < b[i];
        }
        i = i + 1;
    }
    i < b.len()
}

/// Two descriptors that agree on every field.
pub open spec fn same_gateway(a: GatewayDescriptor, b: GatewayDescriptor) -> bool {
    &&& a.gateway_id@ == b.gateway_id@
    &&& a.role == b.role
    &&& a.country_code@ == b.country_code@
    &&& a.provider_id@ == b.provider_id@
    &&& a.autonomous_system == b.autonomous_system
    &&& a.management_identity@ == b.management_identity@
    &&& a.protocol_versions@ == b.protocol_versions@
    &&& a.maintenance == b.maintenance
    &&& a.load == b.load
    &&& a.revoked == b.revoked
}

/// The same descriptor, field by field.
fn copy_descriptor(gateway: &GatewayDescriptor) -> (copy: GatewayDescriptor)
    ensures
        same_gateway(copy, *gateway),
{
    let mut versions: Vec<ProtocolVersion> = Vec::new();
    let mut i: usize = 0;
    while i < gateway.protocol_versions.len()
        invariant
            i <= gateway.protocol_versions@.len(),
            versions@ == gateway.protocol_versions@.subrange(0, i as int),
        decreases gateway.protocol_versions@.len() - i,
    {
        versions.push(gateway.protocol_versions[i]);
        proof {
            assert(gateway.protocol_versions@.subrange(0, i + 1) =~= gateway.protocol_versions@.subrange(
                0,
                i as int,
            ).push(gateway.protocol_versions@[i as int]));
        }
        i = i + 1;
    }
    proof {
        assert(versions@ =~= gateway.protocol_versions@);
    }
    GatewayDescriptor {
        gateway_id: gateway.gateway_id.clone(),
        role: gateway.role,
        country_code: gateway.country_code.clone(),
        provider_id: gateway.provider_id.clone(),
        autonomous_system: gateway.autonomous_system,
        management_identity: gateway.management_identity.clone(),
        protocol_versions: versions,
        maintenance: gateway.maintenance,
        load: gateway.load,
        revoked: gateway.revoked,
    }
}


/// The checks made before any exit is considered.
pub open spec fn route_precheck(entry: GatewayDescriptor, policy: RoutePolicy) -> Result<(), ErrorCode> {
    if !policy_valid(policy) {
        Err(ErrorCode::InvalidConfiguration)
    } else if !gateway_usable(entry, GatewayRole::Entry, policy.maximum_load) {
        Err(ErrorCode::PolicyDenied)
    } else if !supports_version(entry, policy.required_version) {
        Err(ErrorCode::ProtocolIncompatible)
    } else {
        Ok(())
    }
}

/// Selects an exit only when every diversity and availability requirement is
/// satisfied: the best-ranked eligible exit, the first of equals.
pub fn select_enhanced_route(
    entry: &GatewayDescriptor,
    exits: &[GatewayDescriptor],
    policy: &RoutePolicy,
    recent_failures: &[RecentFailure],
) -> (result: Result<EnhancedRoute, Error>)
    ensures
        match result {
            Ok(route) => {
                &&& route_precheck(*entry, *policy) is Ok
                &&& exists|k: int|
                    selected_among(
                        *entry,
                        exits@,
                        *policy,
                        recent_failures@,
                        k,
                        exits@.len() as int,
                    ) && same_gateway(route.exit, #[trigger] exits@[k])
                &&& same_gateway(route.entry, *entry)
                &&& route.protocol_version == policy.required_version
            },
            Err(e) => match route_precheck(*entry, *policy) {
                Err(code) => e.code == code,
                Ok(()) => e.code == ErrorCode::PolicyDenied && forall|j: int|
                    0 <= j < exits@.len() ==> !eligible_exit(*entry, #[trigger] exits@[j], *policy),
            },
        },
{
    policy.validate()?;
    validate_gateway(entry, GatewayRole::Entry, policy.maximum_load)?;
    if !supports(entry, policy.required_version) {
        return Err(Error::new(ErrorCode::ProtocolIncompatible));
    }
    let mut best: Option<usize> = None;
    let mut best_score: u32 = 0;
    let mut i: usize = 0;
    while i < exits.len()
        invariant
            i <= exits@.len(),
            best matches Some(k) ==> selected_among(
                *entry,
                exits@,
                *policy,
                recent_failures@,
                k as int,
                i as int,
            ) && best_score == candidate_score(exits@[k as int], recent_failures@),
            best is None ==> forall|j: int|
                0 <= j < i ==> !eligible_exit(*entry, #[trigger] exits@[j], *policy),
        decreases exits@.len() - i,
    {
        if is_eligible_exit(entry, &exits[i], policy) {
            let score = score_of(&exits[i], recent_failures);
            match best {
                None => {
                    best = Some(i);
                    best_score = score;
                },
                Some(k) => {
                    if score < best_score || (score == best_score && bytes_precede(
                        exits[i].gateway_id.as_str().as_bytes(),
                        exits[k].gateway_id.as_str().as_bytes(),
                    )) {
                        proof {
                            assert forall|j: int|
                                0 <= j < i && eligible_exit(
                                    *entry,
                                    #[trigger] exits@[j],
                                    *policy,
                                ) implies ranks_before(
                                exits@[i as int],
                                exits@[j],
                                recent_failures@,
                            ) by {
                                if j < k {
                                    lemma_ranks_before_trans(
                                        exits@[i as int],
                                        exits@[k as int],
                                        exits@[j],
                                        recent_failures@,
                                    );
                                } else if j > k {
                                    lemma_ranks_before_step(
                                        exits@[i as int],
                                        exits@[k as int],
                                        exits@[j],
                                        recent_failures@,
                                    );
                                }
                            }
                        }
                        best = Some(i);
                        best_score = score;
                    }
                },
            }
        }
        i = i + 1;
    }
    match best {
        None => Err(Error::new(ErrorCode::PolicyDenied)),
        Some(k) => {
            let exit = copy_descriptor(&exits[k]);
            proof {
                assert(same_gateway(exit, exits@[k as int]));
            }
            Ok(
                EnhancedRoute {
                    entry: copy_descriptor(entry),
                    exit,
                    protocol_version: policy.required_version,
                },
            )
        },
    }
}

/// Load points grow strictly with the load bucket's rank: Low, Medium, High,
/// Unknown, Saturated.
pub proof fn lemma_load_points_increase(x: LoadBucket, y: LoadBucket)
    ensures
        load_rank(x) < load_rank(y) ==> load_points(x) < load_points(y),
        load_rank(x) == load_rank(y) ==> x == y,
{
}

/// Of two candidates with the same failure penalty, the less loaded one has
/// the strictly smaller score and ranks first, whatever their IDs.
pub proof fn lemma_less_load_ranks_first(
    a: GatewayDescriptor,
    b: GatewayDescriptor,
    failures: Seq<RecentFailure>,
)
    requires
        load_rank(a.load) < load_rank(b.load),
        failure_points_from(failures, a.gateway_id@, 0) == failure_points_from(
            failures,
            b.gateway_id@,
            0,
        ),
    ensures
        candidate_score(a, failures) < candidate_score(b, failures),
        ranks_before(a, b, failures),
{
    lemma_load_points_increase(a.load, b.load);
}

/// The selected exit is never more loaded than another eligible exit with the
/// same failure penalty: a less loaded eligible exit is always picked first.
pub proof fn lemma_selection_prefers_less_load(
    entry: GatewayDescriptor,
    exits: Seq<GatewayDescriptor>,
    policy: RoutePolicy,
    failures: Seq<RecentFailure>,
    k: int,
    n: int,
    j: int,
)
    requires
        selected_among(entry, exits, policy, failures, k, n),
        0 <= j < n,
        eligible_exit(entry, exits[j], policy),
        failure_points_from(failures, exits[j].gateway_id@, 0) == failure_points_from(
            failures,
            exits[k].gateway_id@,
            0,
        ),
    ensures
        load_rank(exits[k].load) <= load_rank(exits[j].load),
{
    if load_rank(exits[j].load) < load_rank(exits[k].load) {
        lemma_less_load_ranks_first(exits[j], exits[k], failures);
        if j < k {
            assert(ranks_before(exits[k], exits[j], failures));
        } else if j > k {
            assert(!ranks_before(exits[j], exits[k], failures));
        }
    }
}

/// The failure penalty is 1000 points per consecutive failure of the
/// gateway's first record, counting at most 8, and nothing for a gateway
/// without a record.
pub proof fn lemma_failure_penalty(failures: Seq<RecentFailure>, gateway_id: Seq<char>, i: int)
    requires
        0 <= i <= failures.len(),
    ensures
        (forall|j: int| i <= j < failures.len() ==> (#[trigger] failures[j]).gateway_id@ != gateway_id)
            ==> failure_points_from(failures, gateway_id, i) == 0,
        i < failures.len() && failures[i].gateway_id@ == gateway_id ==> {
            &&& failure_points_from(failures, gateway_id, i) <= 8000
            &&& failures[i].consecutive_failures <= 8 ==> failure_points_from(failures, gateway_id, i)
                == 1000 * failures[i].consecutive_failures
            &&& failures[i].consecutive_failures >= 8 ==> failure_points_from(failures, gateway_id, i)
                == 8000
        },
    decreases failures.len() - i,
{
    if i < failures.len() && failures[i].gateway_id@ != gateway_id {
        lemma_failure_penalty(failures, gateway_id, i + 1);
    }
}

} // verus!
