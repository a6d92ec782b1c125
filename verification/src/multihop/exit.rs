//! Exit-side authorization and the exit's own destination policy: the
//! destination from an entry is never trusted, so the exit checks the port,
//! the hostname, every resolved address and each address again before
//! dialing.
use vstd::prelude::*;
use vstd::utf8::encode_utf8;

use crate::address::{is_non_public, non_public, same_address, v4_number, v4_value, v6_number, v6_value};
use crate::daemon::acl::{
    always_blocked_port, bytes_end_with, canonical_form, canonical_hostname, contains_bytes, ends_with,
};
use crate::daemon::dns::{label_views, IpAddress};
use crate::multihop::error::{Error, ErrorCode};
use crate::multihop::identity::{identity_valid, IdentityPurpose, PeerIdentity, TrustBundle};
use crate::multihop::quota::{refilled, EntryQuotaManager, EntryUsage};
use crate::multihop::route::GatewayRole;

verus! {

#[derive(Clone, Copy, Debug, PartialEq, Eq, Structural)]
pub enum DataPlaneOperation {
    OpenRelaySession,
    RelayBytes,
    Management,
    ControlPlane,
}

/// Only an entry's data-plane identity may open relay sessions and relay
/// bytes; nothing grants management or control-plane operations.
pub open spec fn operation_authorized(peer: PeerIdentity, operation: DataPlaneOperation) -> bool {
    &&& peer.role == GatewayRole::Entry
    &&& peer.purpose == IdentityPurpose::InterGatewayDataPlane
    &&& (operation == DataPlaneOperation::OpenRelaySession || operation == DataPlaneOperation::RelayBytes)
}

/// Authorizes a data-plane operation for a peer; anything else is
/// `PolicyDenied`.
pub fn authorize_operation(peer: &PeerIdentity, operation: DataPlaneOperation) -> (result: Result<(), Error>)
    ensures
        result is Ok <==> operation_authorized(*peer, operation),
        result matches Err(e) ==> e.code == ErrorCode::PolicyDenied,
{
    if peer.role != GatewayRole::Entry || peer.purpose != IdentityPurpose::InterGatewayDataPlane || !(
    operation == DataPlaneOperation::OpenRelaySession || operation == DataPlaneOperation::RelayBytes) {
        return Err(Error::new(ErrorCode::PolicyDenied));
    }
    Ok(())
}

#[derive(Clone, Debug, PartialEq, Eq)]
pub enum Destination {
    Hostname(String),
    Ip(IpAddress),
}

/// A management network: an address and a prefix length.
pub type ManagementNetwork = (IpAddress, u8);

/// The prefix fits the address family.
pub open spec fn management_network_valid(network: ManagementNetwork) -> bool {
    match network.0 {
        IpAddress::V4(_) => network.1 <= 32,
        IpAddress::V6(_) => network.1 <= 128,
    }
}

/// The network holds the address: same family and equal leading `prefix`
/// bits.
pub open spec fn management_holds(network: ManagementNetwork, address: IpAddress) -> bool {
    match (network.0, address) {
        (IpAddress::V4(base), IpAddress::V4(candidate)) => {
            let mask: u32 = if network.1 == 0 { 0 } else { (0xffff_ffffu32 << (32 - network.1) as u32) as u32 };
            ((v4_number(base) as u32) & mask) == ((v4_number(candidate) as u32) & mask)
        },
        (IpAddress::V6(base), IpAddress::V6(candidate)) => {
            let mask: u128 = if network.1 == 0 { 0 } else { (u128::MAX << (128 - network.1) as u128) as u128 };
            ((v6_number(base) as u128) & mask) == ((v6_number(candidate) as u128) & mask)
        },
        _ => false,
    }
}

fn network_holds(network: &ManagementNetwork, address: &IpAddress) -> (held: bool)
    requires
        management_network_valid(*network),
    ensures
        held == management_holds(*network, *address),
{
    match (&network.0, address) {
        (IpAddress::V4(base), IpAddress::V4(candidate)) => {
            let p = network.1;
            let mask: u32 = if p == 0 { 0 } else { 0xffff_ffffu32 << (32 - p) as u32 };
            (v4_value(*base) & mask) == (v4_value(*candidate) & mask)
        },
        (IpAddress::V6(base), IpAddress::V6(candidate)) => {
            let p = network.1;
            let mask: u128 = if p == 0 { 0 } else { u128::MAX << (128 - p) as u128 };
            (v6_value(base) & mask) == (v6_value(candidate) & mask)
        },
        _ => false,
    }
}

/// The names an exit never connects to, with everything under them.
pub open spec fn exit_blocked_names() -> Seq<Seq<u8>> {
    seq![
        seq![108u8, 111, 99, 97, 108, 104, 111, 115, 116],
        seq![108u8, 111, 99, 97, 108],
        seq![105u8, 110, 116, 101, 114, 110, 97, 108],
        seq![104u8, 111, 109, 101, 46, 97, 114, 112, 97],
        seq![111u8, 110, 105, 111, 110],
    ]
}

pub open spec fn metadata_name() -> Seq<u8> {
    seq![109u8, 101, 116, 97, 100, 97, 116, 97, 46, 103, 111, 111, 103, 108, 101, 46, 105, 110, 116, 101, 114, 110, 97, 108]
}

/// A canonical hostname the exit refuses: a blocked name, a name under one,
/// or the cloud metadata name.
pub open spec fn exit_blocked(name: Seq<u8>) -> bool {
    (exists|k: int| 0 <= k < 5 && (name == #[trigger] exit_blocked_names()[k] || ends_with(
        name,
        seq![46u8] + exit_blocked_names()[k],
    ))) || name == metadata_name()
}

fn exit_blocked_list() -> (list: Vec<Vec<u8>>)
    ensures
        label_views(list@) == exit_blocked_names(),
{
    let mut list: Vec<Vec<u8>> = Vec::new();
    list.push(vec![108u8, 111, 99, 97, 108, 104, 111, 115, 116]);
    list.push(vec![108u8, 111, 99, 97, 108]);
    list.push(vec![105u8, 110, 116, 101, 114, 110, 97, 108]);
    list.push(vec![104u8, 111, 109, 101, 46, 97, 114, 112, 97]);
    list.push(vec![111u8, 110, 105, 111, 110]);
    proof {
        assert(label_views(list@) =~= exit_blocked_names());
    }
    list
}

fn is_exit_blocked(name: &[u8]) -> (blocked: bool)
    ensures
        blocked == exit_blocked(name@),
{
    let list = exit_blocked_list();
    proof {
        assert(exit_blocked_names().len() == 5);
        assert(label_views(list@).len() == list@.len());
    }
    let mut k: usize = 0;
    while k < list.len()
        invariant
            label_views(list@) == exit_blocked_names(),
            list@.len() == 5,
            k <= list@.len(),
            forall|j: int|
                0 <= j < k ==> !(name@ == #[trigger] exit_blocked_names()[j] || ends_with(
                    name@,
                    seq![46u8] + exit_blocked_names()[j],
                )),
        decreases list@.len() - k,
    {
        let entry = &list[k];
        proof {
            assert(exit_blocked_names()[k as int] == entry@);
        }
        let mut dotted: Vec<u8> = Vec::new();
        dotted.push(46u8);
        crate::text::append_bytes(&mut dotted, entry.as_slice());
        proof {
            assert(dotted@ =~= seq![46u8] + entry@);
        }
        if crate::text::bytes_equal(name, entry.as_slice()) || bytes_end_with(name, dotted.as_slice()) {
            proof {
                assert(name@ == exit_blocked_names()[k as int] || ends_with(
                    name@,
                    seq![46u8] + exit_blocked_names()[k as int],
                ));
            }
            return true;
        }
        k = k + 1;
    }
    proof {
        assert(exit_blocked_names().len() == 5);
        assert(list@.len() == 5);
    }
    let metadata = vec![109u8, 101, 116, 97, 100, 97, 116, 97, 46, 103, 111, 111, 103, 108, 101, 46, 105, 110, 116, 101, 114, 110, 97, 108];
    proof {
        assert(metadata@ =~= metadata_name());
    }
    crate::text::bytes_equal(name, metadata.as_slice())
}

/// Whether a requested hostname may be dialed after resolution: it has a
/// canonical form (a plain DNS name, not an address) that the exit does not
/// block.
pub open spec fn public_hostname(hostname: Seq<u8>) -> bool {
    canonical_form(hostname) matches Some(c) && !exit_blocked(c)
}

/// Checks a requested hostname; a refused one is `PolicyDenied`.
pub fn validate_public_hostname(hostname: &str) -> (result: Result<(), Error>)
    ensures
        result is Ok <==> public_hostname(encode_utf8(hostname@)),
        result matches Err(e) ==> e.code == ErrorCode::PolicyDenied,
{
    let canonical = match canonical_hostname(hostname) {
        Ok(c) => c,
        Err(_) => {
            return Err(Error::new(ErrorCode::PolicyDenied));
        },
    };
    if is_exit_blocked(canonical.as_str().as_bytes()) {
        return Err(Error::new(ErrorCode::PolicyDenied));
    }
    Ok(())
}

/// The exit's default policy: configured blocked ports and management
/// networks on top of the fixed denials.
pub struct DefaultExitAcl {
    blocked_ports: Vec<u16>,
    management_networks: Vec<ManagementNetwork>,
}

impl DefaultExitAcl {
    pub closed spec fn blocked_ports_spec(&self) -> Seq<u16> {
        self.blocked_ports@
    }

    pub closed spec fn management_networks_spec(&self) -> Seq<ManagementNetwork> {
        self.management_networks@
    }

    pub open spec fn wf(&self) -> bool {
        forall|i: int| 0 <= i < self.management_networks_spec().len() ==> management_network_valid(
            #[trigger] self.management_networks_spec()[i],
        )
    }

    /// A policy from at most 256 management networks whose prefixes fit
    /// their families (`InvalidConfiguration` otherwise).
    pub fn new(blocked_ports: Vec<u16>, management_networks: Vec<ManagementNetwork>) -> (result: Result<Self, Error>)
        ensures
            result is Ok <==> management_networks@.len() <= 256 && forall|i: int|
                0 <= i < management_networks@.len() ==> management_network_valid(#[trigger] management_networks@[i]),
            result matches Ok(acl) ==> acl.wf() && acl.blocked_ports_spec() == blocked_ports@
                && acl.management_networks_spec() == management_networks@,
            result matches Err(e) ==> e.code == ErrorCode::InvalidConfiguration,
    {
        if management_networks.len() > 256 {
            return Err(Error::new(ErrorCode::InvalidConfiguration));
        }
        let mut i: usize = 0;
        while i < management_networks.len()
            invariant
                i <= management_networks@.len(),
                forall|j: int| 0 <= j < i ==> management_network_valid(#[trigger] management_networks@[j]),
            decreases management_networks@.len() - i,
        {
            let valid = match management_networks[i].0 {
                IpAddress::V4(_) => management_networks[i].1 <= 32,
                IpAddress::V6(_) => management_networks[i].1 <= 128,
            };
            if !valid {
                return Err(Error::new(ErrorCode::InvalidConfiguration));
            }
            i = i + 1;
        }
        Ok(DefaultExitAcl { blocked_ports, management_networks })
    }

    /// An address the exit may dial: public and in no management network.
    pub open spec fn address_allowed(&self, address: IpAddress) -> bool {
        !non_public(address) && !exists|i: int|
            0 <= i < self.management_networks_spec().len() && management_holds(
                #[trigger] self.management_networks_spec()[i],
                address,
            )
    }

    /// Checks a resolved address; called for every DNS result and again
    /// right before dialing. A refused one is `PolicyDenied`.
    pub fn check_resolved(&self, address: &IpAddress) -> (result: Result<(), Error>)
        requires
            self.wf(),
        ensures
            result is Ok <==> self.address_allowed(*address),
            result matches Err(e) ==> e.code == ErrorCode::PolicyDenied,
    {
        if is_non_public(address) {
            return Err(Error::new(ErrorCode::PolicyDenied));
        }
        let mut i: usize = 0;
        while i < self.management_networks.len()
            invariant
                self.wf(),
                i <= self.management_networks@.len(),
                forall|j: int| 0 <= j < i ==> !management_holds(#[trigger] self.management_networks@[j], *address),
            decreases self.management_networks@.len() - i,
        {
            proof {
                assert(management_network_valid(self.management_networks_spec()[i as int]));
            }
            if network_holds(&self.management_networks[i], address) {
                proof {
                    assert(management_holds(self.management_networks_spec()[i as int], *address));
                }
                return Err(Error::new(ErrorCode::PolicyDenied));
            }
            i = i + 1;
        }
        Ok(())
    }

    /// A requested destination the exit accepts: an allowed port and a
    /// public hostname or an allowed address.
    pub open spec fn request_allowed(&self, destination: Destination, port: u16) -> bool {
        &&& !always_blocked_port(port)
        &&& !self.blocked_ports_spec().contains(port)
        &&& match destination {
            Destination::Hostname(name) => public_hostname(encode_utf8(name@)),
            Destination::Ip(address) => self.address_allowed(address),
        }
    }

    /// Checks a requested destination and port; a refused one is
    /// `PolicyDenied`.
    pub fn check_requested(&self, destination: &Destination, port: u16) -> (result: Result<(), Error>)
        requires
            self.wf(),
        ensures
            result is Ok <==> self.request_allowed(*destination, port),
            result matches Err(e) ==> e.code == ErrorCode::PolicyDenied,
    {
        if port == 0 || port == 25 || port == 9051 || port == 9151 || (6881 <= port && port <= 6889) {
            return Err(Error::new(ErrorCode::PolicyDenied));
        }
        let mut i: usize = 0;
        while i < self.blocked_ports.len()
            invariant
                i <= self.blocked_ports@.len(),
                forall|j: int| 0 <= j < i ==> self.blocked_ports@[j] != port,
            decreases self.blocked_ports@.len() - i,
        {
            if self.blocked_ports[i] == port {
                proof {
                    assert(self.blocked_ports_spec()[i as int] == port);
                }
                return Err(Error::new(ErrorCode::PolicyDenied));
            }
            i = i + 1;
        }
        match destination {
            Destination::Hostname(hostname) => validate_public_hostname(hostname.as_str()),
            Destination::Ip(address) => self.check_resolved(address),
        }
    }

    /// Checks what the resolver returned for a hostname: 1 to 16 addresses
    /// (`PolicyDenied` otherwise). Each is then checked before its dial.
    pub fn check_resolution(addresses: &Vec<IpAddress>) -> (result: Result<(), Error>)
        ensures
            result is Ok <==> 1 <= addresses@.len() <= 16,
            result matches Err(e) ==> e.code == ErrorCode::PolicyDenied,
    {
        if addresses.len() == 0 || addresses.len() > 16 {
            return Err(Error::new(ErrorCode::PolicyDenied));
        }
        Ok(())
    }
}

/// The error of an open in which no dial succeeded: `TransportFailure` if a
/// dial failed or timed out, `PolicyDenied` otherwise.
pub fn failed_open(saw_transport_failure: bool) -> (error: Error)
    ensures
        error.code == if saw_transport_failure { ErrorCode::TransportFailure } else { ErrorCode::PolicyDenied },
{
    if saw_transport_failure {
        Error::new(ErrorCode::TransportFailure)
    } else {
        Error::new(ErrorCode::PolicyDenied)
    }
}

/// Checks an egress connect timeout: 1 ms to 120 s (`InvalidConfiguration`
/// otherwise).
pub fn validate_connect_timeout(timeout_ms: u64) -> (result: Result<(), Error>)
    ensures
        result is Ok <==> 0 < timeout_ms <= 120000,
        result matches Err(e) ==> e.code == ErrorCode::InvalidConfiguration,
{
    if timeout_ms == 0 || timeout_ms > 120000 {
        return Err(Error::new(ErrorCode::InvalidConfiguration));
    }
    Ok(())
}

/// What the exit knows of the terminal session it serves: only the entry's
/// public service ID, used for quotas and revocation.
pub struct TerminalContext {
    pub entry_service_id: String,
}

/// Admission of entry-to-exit connections: trust, authorization and
/// per-entry quotas, around a terminal session handler.
pub struct ExitGatewayAdapter<H> {
    trust: TrustBundle,
    quotas: EntryQuotaManager,
    handler: H,
}

/// One admitted entry-to-exit connection; it holds a connection of the
/// entry's quota until released.
pub struct AuthorizedEntryConnection {
    peer: PeerIdentity,
}

impl AuthorizedEntryConnection {
    pub closed spec fn peer_spec(&self) -> PeerIdentity {
        self.peer
    }

    pub fn peer(&self) -> (peer: &PeerIdentity)
        ensures
            *peer == self.peer_spec(),
    {
        &self.peer
    }
}

impl<H> ExitGatewayAdapter<H> {
    pub closed spec fn trust_spec(&self) -> TrustBundle {
        self.trust
    }

    pub closed spec fn quotas_spec(&self) -> EntryQuotaManager {
        self.quotas
    }

    pub fn new(trust: TrustBundle, quotas: EntryQuotaManager, handler: H) -> (adapter: Self)
        ensures
            adapter.trust_spec() == trust,
            adapter.quotas_spec() == quotas,
    {
        ExitGatewayAdapter { trust, quotas, handler }
    }

    pub fn handler(&self) -> &H {
        &self.handler
    }

    /// Admits an authenticated entry connection: the peer must be active in
    /// the trust bundle, authorized to open relay sessions, and within its
    /// connection quota.
    pub fn admit_connection(&mut self, peer: PeerIdentity, now_unix_seconds: u64, now_ms: u64) -> (result: Result<AuthorizedEntryConnection, Error>)
        requires
            old(self).quotas_spec().wf(),
        ensures
            final(self).trust_spec() == old(self).trust_spec(),
            final(self).quotas_spec().wf(),
            !old(self).trust_spec().active(peer, now_unix_seconds) ==> result is Err
                && final(self).quotas_spec() == old(self).quotas_spec(),
            old(self).trust_spec().active(peer, now_unix_seconds) && !operation_authorized(
                peer,
                DataPlaneOperation::OpenRelaySession,
            ) ==> result == Err::<AuthorizedEntryConnection, Error>(Error { code: ErrorCode::PolicyDenied })
                && final(self).quotas_spec() == old(self).quotas_spec(),
            result matches Ok(c) ==> c.peer_spec() == peer && old(self).trust_spec().active(peer, now_unix_seconds)
                && operation_authorized(peer, DataPlaneOperation::OpenRelaySession)
                && final(self).quotas_spec().usage().contains_key(peer.service_id@),
    {
        self.trust.ensure_active(&peer, now_unix_seconds)?;
        authorize_operation(&peer, DataPlaneOperation::OpenRelaySession)?;
        self.quotas.acquire_connection(&peer, now_ms)?;
        Ok(AuthorizedEntryConnection { peer })
    }

    /// Charges relayed bytes to a connection's entry after re-checking that
    /// the peer is active and authorized to relay.
    pub fn charge_relay_bytes(
        &mut self,
        connection: &AuthorizedEntryConnection,
        bytes: usize,
        now_unix_seconds: u64,
        now_ms: u64,
    ) -> (result: Result<(), Error>)
        requires
            old(self).quotas_spec().wf(),
        ensures
            final(self).trust_spec() == old(self).trust_spec(),
            final(self).quotas_spec().wf(),
            !identity_valid(connection.peer_spec(), now_unix_seconds) ==> result == Err::<(), Error>(
                Error { code: ErrorCode::InvalidIdentity },
            ) && final(self).quotas_spec() == old(self).quotas_spec(),
            identity_valid(connection.peer_spec(), now_unix_seconds) && !old(self).trust_spec().active(
                connection.peer_spec(),
                now_unix_seconds,
            ) ==> result == Err::<(), Error>(Error { code: ErrorCode::Revoked }) && final(self).quotas_spec()
                == old(self).quotas_spec(),
            old(self).trust_spec().active(connection.peer_spec(), now_unix_seconds) && !operation_authorized(
                connection.peer_spec(),
                DataPlaneOperation::RelayBytes,
            ) ==> result == Err::<(), Error>(Error { code: ErrorCode::PolicyDenied }) && final(self).quotas_spec()
                == old(self).quotas_spec(),
            old(self).trust_spec().active(connection.peer_spec(), now_unix_seconds) && operation_authorized(
                connection.peer_spec(),
                DataPlaneOperation::RelayBytes,
            ) ==> ({
                let q = old(self).quotas_spec();
                let id = connection.peer_spec().service_id@;
                let current = refilled(q.usage()[id], q.limits_spec(), now_ms);
                &&& final(self).quotas_spec().limits_spec() == q.limits_spec()
                &&& final(self).quotas_spec().draining_spec() == q.draining_spec()
                &&& if !q.usage().contains_key(id) {
                    result == Err::<(), Error>(Error { code: ErrorCode::AuthenticationRejected })
                        && final(self).quotas_spec().usage() == q.usage()
                } else if bytes > current.available_bytes {
                    result == Err::<(), Error>(Error { code: ErrorCode::Backpressure })
                        && final(self).quotas_spec().usage() == q.usage().insert(id, current)
                } else {
                    result is Ok && final(self).quotas_spec().usage() == q.usage().insert(
                        id,
                        EntryUsage { available_bytes: (current.available_bytes - bytes) as u64, ..current },
                    )
                }
            }),
    {
        self.trust.ensure_active(connection.peer(), now_unix_seconds)?;
        authorize_operation(connection.peer(), DataPlaneOperation::RelayBytes)?;
        self.quotas.charge_bytes(connection.peer(), bytes, now_ms)
    }

    /// Admits one relay session on a connection: the peer must still be
    /// active and authorized, and the entry within its session quota. The
    /// handler then serves the session with this context.
    pub fn begin_relay(
        &mut self,
        connection: &AuthorizedEntryConnection,
        now_unix_seconds: u64,
    ) -> (result: Result<TerminalContext, Error>)
        requires
            old(self).quotas_spec().wf(),
        ensures
            final(self).trust_spec() == old(self).trust_spec(),
            final(self).quotas_spec().wf(),
            !identity_valid(connection.peer_spec(), now_unix_seconds) ==> result == Err::<TerminalContext, Error>(
                Error { code: ErrorCode::InvalidIdentity },
            ) && final(self).quotas_spec() == old(self).quotas_spec(),
            identity_valid(connection.peer_spec(), now_unix_seconds) && !old(self).trust_spec().active(
                connection.peer_spec(),
                now_unix_seconds,
            ) ==> result == Err::<TerminalContext, Error>(Error { code: ErrorCode::Revoked })
                && final(self).quotas_spec() == old(self).quotas_spec(),
            old(self).trust_spec().active(connection.peer_spec(), now_unix_seconds) && !operation_authorized(
                connection.peer_spec(),
                DataPlaneOperation::OpenRelaySession,
            ) ==> result == Err::<TerminalContext, Error>(Error { code: ErrorCode::PolicyDenied })
                && final(self).quotas_spec() == old(self).quotas_spec(),
            old(self).trust_spec().active(connection.peer_spec(), now_unix_seconds) && operation_authorized(
                connection.peer_spec(),
                DataPlaneOperation::OpenRelaySession,
            ) ==> ({
                let q = old(self).quotas_spec();
                let id = connection.peer_spec().service_id@;
                &&& final(self).quotas_spec().limits_spec() == q.limits_spec()
                &&& final(self).quotas_spec().draining_spec() == q.draining_spec()
                &&& if q.draining_spec() {
                    result == Err::<TerminalContext, Error>(Error { code: ErrorCode::Draining })
                        && final(self).quotas_spec().usage() == q.usage()
                } else if !q.usage().contains_key(id) {
                    result == Err::<TerminalContext, Error>(Error { code: ErrorCode::AuthenticationRejected })
                        && final(self).quotas_spec().usage() == q.usage()
                } else if q.usage()[id].sessions >= q.limits_spec().maximum_sessions_per_entry {
                    result == Err::<TerminalContext, Error>(Error { code: ErrorCode::ResourceExhausted })
                        && final(self).quotas_spec().usage() == q.usage()
                } else {
                    &&& result matches Ok(context) && context.entry_service_id == connection.peer_spec().service_id
                    &&& final(self).quotas_spec().usage() == q.usage().insert(
                        id,
                        EntryUsage { sessions: (q.usage()[id].sessions + 1) as usize, ..q.usage()[id] },
                    )
                }
            }),
    {
        self.trust.ensure_active(connection.peer(), now_unix_seconds)?;
        authorize_operation(connection.peer(), DataPlaneOperation::OpenRelaySession)?;
        self.quotas.acquire_session(connection.peer())?;
        Ok(TerminalContext { entry_service_id: connection.peer.service_id.clone() })
    }

    /// Releases a connection's quota.
    pub fn release_connection(&mut self, connection: AuthorizedEntryConnection)
        requires
            old(self).quotas_spec().wf(),
        ensures
            final(self).trust_spec() == old(self).trust_spec(),
            final(self).quotas_spec().wf(),
    {
        self.quotas.release(&connection.peer.service_id, true);
    }

    /// Releases a relay session's quota.
    pub fn release_session(&mut self, context: &TerminalContext)
        requires
            old(self).quotas_spec().wf(),
        ensures
            final(self).trust_spec() == old(self).trust_spec(),
            final(self).quotas_spec().wf(),
    {
        self.quotas.release(&context.entry_service_id, false);
    }
}

} // verus!
