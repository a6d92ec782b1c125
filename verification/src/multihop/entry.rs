//! The entry gateway's decisions over an accepted Tor session: which
//! credentials to verify, which grants to accept, the route to the exit, and
//! the relay byte budget shared by both directions. The session carries no
//! client address.
use vstd::prelude::*;

use crate::multihop::error::{Error, ErrorCode};
use crate::multihop::route::{
    eligible_exit, route_precheck, same_gateway, select_enhanced_route, selected_among, EnhancedRoute,
    GatewayDescriptor, GatewayRole, RecentFailure, RoutePolicy,
};

verus! {

/// An accepted Tor session, wrapped without any address information.
pub struct TorSession<T> {
    io: T,
}

impl<T> TorSession<T> {
    /// Wraps a stream from which the listener has already discarded the
    /// peer address.
    pub fn from_anonymized_io(io: T) -> Self {
        TorSession { io }
    }

    pub fn into_inner(self) -> T {
        self.io
    }
}

/// An entry-scoped anonymous credential.
pub struct AnonymousCredential<'a> {
    pub token: &'a [u8],
    pub proof_of_possession: &'a [u8],
    pub session_binding: &'a [u8; 32],
}

/// One accepted Tor session with its credential and the client's route
/// preferences. It has no field for a client address.
pub struct EntrySessionRequest<'a, T> {
    pub tor_session: TorSession<T>,
    pub credential: AnonymousCredential<'a>,
    pub route_policy: RoutePolicy,
    pub recent_failures: &'a [RecentFailure],
}

/// What a verified credential grants. Times are Unix seconds.
#[derive(Clone, Copy, Debug, PartialEq, Eq, Structural)]
pub struct AnonymousGrant {
    pub expires_at_unix_seconds: u64,
    pub enhanced_allowed: bool,
    pub maximum_relay_bytes: u64,
}

/// A credential worth verifying: a token of 1 to 4096 bytes and a proof of at
/// most 4096 bytes.
pub open spec fn credential_acceptable(token: Seq<u8>, proof: Seq<u8>) -> bool {
    0 < token.len() <= 4096 && proof.len() <= 4096
}

/// Checks a credential's shape before verification
/// (`AuthenticationRejected` otherwise).
pub fn check_credential(credential: &AnonymousCredential) -> (result: Result<(), Error>)
    ensures
        result is Ok <==> credential_acceptable(credential.token@, credential.proof_of_possession@),
        result matches Err(e) ==> e.code == ErrorCode::AuthenticationRejected,
{
    if credential.token.len() == 0 || credential.token.len() > 4096 || credential.proof_of_possession.len() > 4096 {
        return Err(Error::new(ErrorCode::AuthenticationRejected));
    }
    Ok(())
}

/// A grant that allows an Enhanced session now: Enhanced allowed, a positive
/// relay byte budget, and not expired.
pub open spec fn grant_usable(grant: AnonymousGrant, now_unix_seconds: u64) -> bool {
    grant.enhanced_allowed && grant.maximum_relay_bytes > 0 && grant.expires_at_unix_seconds > now_unix_seconds
}

/// Checks a verified grant (`AuthenticationRejected` otherwise).
pub fn check_grant(grant: &AnonymousGrant, now_unix_seconds: u64) -> (result: Result<(), Error>)
    ensures
        result is Ok <==> grant_usable(*grant, now_unix_seconds),
        result matches Err(e) ==> e.code == ErrorCode::AuthenticationRejected,
{
    if !grant.enhanced_allowed || grant.maximum_relay_bytes == 0 || grant.expires_at_unix_seconds <= now_unix_seconds {
        return Err(Error::new(ErrorCode::AuthenticationRejected));
    }
    Ok(())
}

/// The route and byte counts of a finished entry session.
#[derive(Clone, Debug, PartialEq, Eq)]
pub struct EntrySessionOutcome {
    pub route: EnhancedRoute,
    pub bytes_client_to_exit: u64,
    pub bytes_exit_to_client: u64,
}

/// An entry gateway: its descriptor, the exits it may route to, and the
/// verifier and relay factory it uses.
pub struct EntryGateway<V, R> {
    descriptor: GatewayDescriptor,
    exits: Vec<GatewayDescriptor>,
    credentials: V,
    relays: R,
    verification_timeout_ms: u64,
}

impl<V, R> EntryGateway<V, R> {
    pub closed spec fn descriptor_spec(&self) -> GatewayDescriptor {
        self.descriptor
    }

    pub closed spec fn exits_spec(&self) -> Seq<GatewayDescriptor> {
        self.exits@
    }

    pub closed spec fn verification_timeout_spec(&self) -> u64 {
        self.verification_timeout_ms
    }

    /// An entry gateway needs an entry descriptor, at least one exit and a
    /// positive verification timeout (`InvalidConfiguration` otherwise).
    pub fn new(
        descriptor: GatewayDescriptor,
        exits: Vec<GatewayDescriptor>,
        credentials: V,
        relays: R,
        verification_timeout_ms: u64,
    ) -> (result: Result<Self, Error>)
        ensures
            result is Ok <==> descriptor.role == GatewayRole::Entry && exits@.len() > 0 && verification_timeout_ms > 0,
            result matches Ok(gateway) ==> gateway.descriptor_spec() == descriptor && gateway.exits_spec() == exits@
                && gateway.verification_timeout_spec() == verification_timeout_ms,
            result matches Err(e) ==> e.code == ErrorCode::InvalidConfiguration,
    {
        if descriptor.role != GatewayRole::Entry || exits.len() == 0 || verification_timeout_ms == 0 {
            return Err(Error::new(ErrorCode::InvalidConfiguration));
        }
        Ok(EntryGateway { descriptor, exits, credentials, relays, verification_timeout_ms })
    }

    pub fn credential_verifier(&self) -> &V {
        &self.credentials
    }

    pub fn relays(&self) -> &R {
        &self.relays
    }

    pub fn verification_timeout_ms(&self) -> (timeout: u64)
        ensures
            timeout == self.verification_timeout_spec(),
    {
        self.verification_timeout_ms
    }

    /// After the grant: checks it and selects a diverse Enhanced route from
    /// this entry to one of its exits.
    pub fn route_for(
        &self,
        grant: &AnonymousGrant,
        policy: &RoutePolicy,
        recent_failures: &[RecentFailure],
        now_unix_seconds: u64,
    ) -> (result: Result<EnhancedRoute, Error>)
        ensures
            !grant_usable(*grant, now_unix_seconds) ==> result == Err::<EnhancedRoute, Error>(
                Error { code: ErrorCode::AuthenticationRejected },
            ),
            grant_usable(*grant, now_unix_seconds) ==> match result {
                Ok(route) => {
                    &&& route_precheck(self.descriptor_spec(), *policy) is Ok
                    &&& exists|k: int|
                        selected_among(
                            self.descriptor_spec(),
                            self.exits_spec(),
                            *policy,
                            recent_failures@,
                            k,
                            self.exits_spec().len() as int,
                        ) && same_gateway(route.exit, #[trigger] self.exits_spec()[k])
                    &&& same_gateway(route.entry, self.descriptor_spec())
                    &&& route.protocol_version == policy.required_version
                },
                Err(e) => match route_precheck(self.descriptor_spec(), *policy) {
                    Err(code) => e.code == code,
                    Ok(()) => e.code == ErrorCode::PolicyDenied && forall|j: int|
                        0 <= j < self.exits_spec().len() ==> !eligible_exit(
                            self.descriptor_spec(),
                            #[trigger] self.exits_spec()[j],
                            *policy,
                        ),
                },
            },
    {
        check_grant(grant, now_unix_seconds)?;
        let exits = self.exits.as_slice();
        let result = select_enhanced_route(&self.descriptor, exits, policy, recent_failures);
        proof {
            assert(exits@ == self.exits_spec());
        }
        result
    }
}

/// The relay byte budget of one entry session, shared by both directions.
/// A write reserves up to what remains, and returns what it did not use.
pub struct RelayBudget {
    remaining: u64,
}

impl RelayBudget {
    pub closed spec fn remaining_spec(&self) -> u64 {
        self.remaining
    }

    pub fn new(maximum_relay_bytes: u64) -> (budget: Self)
        ensures
            budget.remaining_spec() == maximum_relay_bytes,
    {
        RelayBudget { remaining: maximum_relay_bytes }
    }

    pub fn remaining(&self) -> (remaining: u64)
        ensures
            remaining == self.remaining_spec(),
    {
        self.remaining
    }

    /// Reserves bytes for a write of `wanted` bytes: as many as remain, at
    /// most `wanted`. With nothing left the quota is exhausted (`None`).
    pub fn reserve(&mut self, wanted: usize) -> (reserved: Option<usize>)
        ensures
            old(self).remaining_spec() == 0 ==> reserved is None && final(self).remaining_spec() == 0,
            old(self).remaining_spec() > 0 ==> (reserved matches Some(n) && n as int == (if old(self).remaining_spec()
                <= wanted { old(self).remaining_spec() as int } else { wanted as int })
                && final(self).remaining_spec() == old(self).remaining_spec() - n),
    {
        if self.remaining == 0 {
            return None;
        }
        let amount: u64 = if self.remaining <= wanted as u64 { self.remaining } else { wanted as u64 };
        self.remaining = self.remaining - amount;
        Some(amount as usize)
    }

    /// Returns the unused part of a reservation.
    pub fn settle(&mut self, reserved: usize, written: usize)
        requires
            written <= reserved,
            old(self).remaining_spec() + reserved <= u64::MAX,
        ensures
            final(self).remaining_spec() == old(self).remaining_spec() + (reserved - written),
    {
        self.remaining = self.remaining + (reserved - written) as u64;
    }
}

/// The budget never grows past what it started with: reserving and settling
/// at most the reserved amount keeps the remaining bytes plus the bytes in
/// flight equal to what was there before.
pub proof fn lemma_budget_conserved(before: u64, reserved: usize, written: usize)
    requires
        written <= reserved <= before,
    ensures
        (before - reserved) + (reserved - written) <= before,
        (before - reserved) + (reserved - written) + written == before,
{
}

} // verus!
