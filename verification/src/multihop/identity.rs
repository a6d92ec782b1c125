//! Short-lived, role-scoped data-plane identities. Times are Unix seconds.
use vstd::prelude::*;
use vstd::utf8::encode_utf8;

use crate::crypto::{sha256, sha256_of};
use crate::multihop::error::{Error, ErrorCode};
use crate::multihop::route::GatewayRole;
use crate::text::{is_alphanumeric_byte, is_ascii_alphanumeric};

verus! {

/// The longest lifetime of a leaf certificate, in seconds.
pub const MAX_LEAF_LIFETIME_SECONDS: u64 = 86400;

/// How long before expiry an identity is rotated, in seconds.
pub const DEFAULT_ROTATION_LEAD_SECONDS: u64 = 7200;

#[derive(Clone, Copy, Debug, PartialEq, Eq, Hash, Structural)]
pub enum IdentityPurpose {
    InterGatewayDataPlane,
    ExitTerminal,
    Management,
}

/// Metadata authenticated by the signed trust bundle and pinned to the exact
/// leaf certificate digest. A service identity, never a user identity.
#[derive(Clone, Debug, PartialEq, Eq)]
pub struct PeerIdentity {
    pub service_id: String,
    pub role: GatewayRole,
    pub purpose: IdentityPurpose,
    pub certificate_sha256: [u8; 32],
    pub valid_from_unix_seconds: u64,
    pub valid_until_unix_seconds: u64,
}

/// A service ID byte: a letter, a digit, `-`, `_`, `.` or `:`.
pub open spec fn service_id_byte(b: u8) -> bool {
    is_ascii_alphanumeric(b) || b == 45 || b == 95 || b == 46 || b == 58
}

/// A non-empty service ID of at most 128 bytes from the allowed alphabet.
pub open spec fn service_id_valid(id: Seq<char>) -> bool {
    let bytes = encode_utf8(id);
    &&& id.len() > 0
    &&& bytes.len() <= 128
    &&& forall|i: int| 0 <= i < bytes.len() ==> service_id_byte(#[trigger] bytes[i])
}

/// Whether `service_id_valid` holds of `id`.
pub fn check_service_id(id: &str) -> (valid: bool)
    ensures
        valid == service_id_valid(id@),
{
    if id.is_empty() {
        return false;
    }
    let bytes = id.as_bytes();
    if bytes.len() > 128 {
        return false;
    }
    let mut i: usize = 0;
    while i < bytes.len()
        invariant
            i <= bytes@.len(),
            bytes@ == encode_utf8(id@),
            forall|j: int| 0 <= j < i ==> service_id_byte(#[trigger] bytes@[j]),
        decreases bytes@.len() - i,
    {
        let b = bytes[i];
        if !(is_alphanumeric_byte(b) || b == 45 || b == 95 || b == 46 || b == 58) {
            return false;
        }
        i = i + 1;
    }
    true
}

/// An identity usable at `now`: a valid service ID and a validity window that
/// has begun, has not ended and spans at most the leaf lifetime.
pub open spec fn identity_valid(identity: PeerIdentity, now: u64) -> bool {
    &&& service_id_valid(identity.service_id@)
    &&& identity.valid_from_unix_seconds <= now
    &&& now < identity.valid_until_unix_seconds
    &&& identity.valid_until_unix_seconds - identity.valid_from_unix_seconds
        <= MAX_LEAF_LIFETIME_SECONDS
}

impl PeerIdentity {
    pub fn validate(&self, now_unix_seconds: u64) -> (result: Result<(), Error>)
        ensures
            result is Ok <==> identity_valid(*self, now_unix_seconds),
            result matches Err(e) ==> e.code == ErrorCode::InvalidIdentity,
    {
        if !check_service_id(self.service_id.as_str()) || self.valid_from_unix_seconds
            > now_unix_seconds || self.valid_until_unix_seconds <= now_unix_seconds
            || self.valid_until_unix_seconds - self.valid_from_unix_seconds
            > MAX_LEAF_LIFETIME_SECONDS {
            return Err(Error::new(ErrorCode::InvalidIdentity));
        }
        Ok(())
    }
}

/// A copy of an identity.
pub fn clone_identity(identity: &PeerIdentity) -> (copy: PeerIdentity)
    ensures
        copy == *identity,
{
    PeerIdentity {
        service_id: identity.service_id.clone(),
        role: identity.role,
        purpose: identity.purpose,
        certificate_sha256: identity.certificate_sha256,
        valid_from_unix_seconds: identity.valid_from_unix_seconds,
        valid_until_unix_seconds: identity.valid_until_unix_seconds,
    }
}

/// The SHA-256 digest of a certificate's DER bytes: the pin of a leaf.
pub fn certificate_fingerprint(certificate: &[u8]) -> (digest: [u8; 32])
    ensures
        digest@ == sha256_of(certificate@),
{
    sha256(certificate)
}

/// Whether two service IDs are the same text.
fn same_text(a: &String, b: &String) -> (same: bool)
    ensures
        same == (a@ == b@),
{
    let x = a.as_str().as_bytes();
    let y = b.as_str().as_bytes();
    let same = crate::text::bytes_equal(x, y);
    proof {
        if same {
            vstd::utf8::encode_utf8_decode_utf8(a@);
            vstd::utf8::encode_utf8_decode_utf8(b@);
        }
    }
    same
}

fn same_digest(a: &[u8; 32], b: &[u8; 32]) -> (same: bool)
    ensures
        same == (*a == *b),
{
    let mut i: usize = 0;
    while i < 32
        invariant
            i <= 32,
            forall|j: int| 0 <= j < i ==> a[j] == b[j],
        decreases 32 - i,
    {
        if a[i] != b[i] {
            return false;
        }
        i = i + 1;
    }
    assert(*a =~= *b);
    true
}

/// The DER certificates of a chain, as bytes.
pub open spec fn chain_bytes(chain: Seq<Vec<u8>>) -> Seq<Seq<u8>> {
    chain.map_values(|c: Vec<u8>| c@)
}

/// What `IdentityMaterial::new` accepts: a descriptor valid at `now` that pins
/// the digest of the chain's first (leaf) certificate.
pub open spec fn material_acceptable(descriptor: PeerIdentity, chain: Seq<Seq<u8>>, now: u64) -> bool {
    &&& identity_valid(descriptor, now)
    &&& chain.len() > 0
    &&& sha256_of(chain[0]) == descriptor.certificate_sha256@
}

/// Data-plane identity material: a descriptor pinned to the leaf certificate,
/// the certificate chain (DER, leaf first) and the private key, which no
/// public accessor exposes.
pub struct IdentityMaterial {
    descriptor: PeerIdentity,
    certificate_chain: Vec<Vec<u8>>,
    private_key: Vec<u8>,
}

impl IdentityMaterial {
    pub closed spec fn descriptor_spec(&self) -> PeerIdentity {
        self.descriptor
    }

    pub closed spec fn chain(&self) -> Seq<Seq<u8>> {
        chain_bytes(self.certificate_chain@)
    }

    pub closed spec fn key(&self) -> Seq<u8> {
        self.private_key@
    }

    /// Checks the descriptor at `now_unix_seconds` and that it pins the leaf;
    /// any failure is `InvalidIdentity`.
    pub fn new(
        descriptor: PeerIdentity,
        certificate_chain: Vec<Vec<u8>>,
        private_key: Vec<u8>,
        now_unix_seconds: u64,
    ) -> (result: Result<Self, Error>)
        ensures
            match result {
                Ok(material) => {
                    &&& material_acceptable(descriptor, chain_bytes(certificate_chain@), now_unix_seconds)
                    &&& material.descriptor_spec() == descriptor
                    &&& material.chain() == chain_bytes(certificate_chain@)
                    &&& material.key() == private_key@
                },
                Err(e) => !material_acceptable(descriptor, chain_bytes(certificate_chain@), now_unix_seconds)
                    && e.code == ErrorCode::InvalidIdentity,
            },
    {
        descriptor.validate(now_unix_seconds)?;
        if certificate_chain.len() == 0 {
            return Err(Error::new(ErrorCode::InvalidIdentity));
        }
        let digest = certificate_fingerprint(certificate_chain[0].as_slice());
        proof {
            assert(chain_bytes(certificate_chain@)[0] == certificate_chain@[0]@);
        }
        if !same_digest(&digest, &descriptor.certificate_sha256) {
            proof {
                if sha256_of(certificate_chain@[0]@) == descriptor.certificate_sha256@ {
                    assert(digest =~= descriptor.certificate_sha256);
                }
            }
            return Err(Error::new(ErrorCode::InvalidIdentity));
        }
        Ok(IdentityMaterial { descriptor, certificate_chain, private_key })
    }

    pub fn descriptor(&self) -> (descriptor: &PeerIdentity)
        ensures
            *descriptor == self.descriptor_spec(),
    {
        &self.descriptor
    }

    /// The certificate chain, leaf first.
    pub fn certificate_chain(&self) -> (chain: &Vec<Vec<u8>>)
        ensures
            chain_bytes(chain@) == self.chain(),
    {
        &self.certificate_chain
    }

    /// The private key, for the transport's TLS configuration only.
    pub(crate) fn private_key(&self) -> (key: &[u8])
        ensures
            key@ == self.key(),
    {
        self.private_key.as_slice()
    }
}

/// The identity a gateway presents, held for one role and purpose; material
/// of another role or purpose is never installed.
pub struct IdentityStore {
    expected_role: GatewayRole,
    expected_purpose: IdentityPurpose,
    current: IdentityMaterial,
}

impl IdentityStore {
    pub closed spec fn role(&self) -> GatewayRole {
        self.expected_role
    }

    pub closed spec fn purpose(&self) -> IdentityPurpose {
        self.expected_purpose
    }

    pub closed spec fn current_spec(&self) -> PeerIdentity {
        self.current.descriptor_spec()
    }

    /// A store for the role and purpose of `material`; management identities
    /// are refused with `InvalidIdentity`.
    pub fn new(material: IdentityMaterial) -> (result: Result<Self, Error>)
        ensures
            match result {
                Ok(store) => {
                    &&& material.descriptor_spec().purpose != IdentityPurpose::Management
                    &&& store.role() == material.descriptor_spec().role
                    &&& store.purpose() == material.descriptor_spec().purpose
                    &&& store.current_spec() == material.descriptor_spec()
                },
                Err(e) => material.descriptor_spec().purpose == IdentityPurpose::Management
                    && e.code == ErrorCode::InvalidIdentity,
            },
    {
        let expected_role = material.descriptor.role;
        let expected_purpose = material.descriptor.purpose;
        if expected_purpose == IdentityPurpose::Management {
            return Err(Error::new(ErrorCode::InvalidIdentity));
        }
        Ok(IdentityStore { expected_role, expected_purpose, current: material })
    }

    /// The current material, if its descriptor is valid at `now_unix_seconds`.
    pub fn snapshot(&self, now_unix_seconds: u64) -> (result: Result<&IdentityMaterial, Error>)
        ensures
            match result {
                Ok(material) => identity_valid(self.current_spec(), now_unix_seconds)
                    && material.descriptor_spec() == self.current_spec(),
                Err(e) => !identity_valid(self.current_spec(), now_unix_seconds) && e.code
                    == ErrorCode::InvalidIdentity,
            },
    {
        self.current.descriptor.validate(now_unix_seconds)?;
        Ok(&self.current)
    }

    /// Whether the current identity is due for rotation: at most
    /// `lead_seconds` of its validity remain at `now_unix_seconds`. An
    /// identity no longer valid is `InvalidIdentity`.
    pub fn expires_within(&self, lead_seconds: u64, now_unix_seconds: u64) -> (result: Result<bool, Error>)
        ensures
            match result {
                Ok(due) => identity_valid(self.current_spec(), now_unix_seconds) && due == (
                self.current_spec().valid_until_unix_seconds - now_unix_seconds <= lead_seconds),
                Err(e) => !identity_valid(self.current_spec(), now_unix_seconds) && e.code
                    == ErrorCode::InvalidIdentity,
            },
    {
        let current = self.snapshot(now_unix_seconds)?;
        let remaining = current.descriptor.valid_until_unix_seconds - now_unix_seconds;
        Ok(remaining <= lead_seconds)
    }

    /// Replaces the material: it must be valid at `now_unix_seconds`
    /// (`InvalidIdentity`) and of the store's role and purpose (`WrongRole`).
    pub fn install(&mut self, material: IdentityMaterial, now_unix_seconds: u64) -> (result: Result<
        (),
        Error,
    >)
        ensures
            final(self).role() == old(self).role(),
            final(self).purpose() == old(self).purpose(),
            match result {
                Ok(()) => identity_valid(material.descriptor_spec(), now_unix_seconds)
                    && material.descriptor_spec().role == old(self).role()
                    && material.descriptor_spec().purpose == old(self).purpose()
                    && final(self).current_spec() == material.descriptor_spec(),
                Err(e) => final(self).current_spec() == old(self).current_spec() && if !identity_valid(
                    material.descriptor_spec(),
                    now_unix_seconds,
                ) {
                    e.code == ErrorCode::InvalidIdentity
                } else {
                    e.code == ErrorCode::WrongRole && (material.descriptor_spec().role != old(self).role()
                        || material.descriptor_spec().purpose != old(self).purpose())
                },
            },
    {
        material.descriptor.validate(now_unix_seconds)?;
        if material.descriptor.role != self.expected_role || material.descriptor.purpose
            != self.expected_purpose {
            return Err(Error::new(ErrorCode::WrongRole));
        }
        self.current = material;
        Ok(())
    }
}

/// No two identities pin the same certificate.
pub open spec fn pins_distinct(peers: Seq<PeerIdentity>) -> bool {
    forall|i: int, j: int|
        0 <= i < peers.len() && 0 <= j < peers.len() && i != j ==> #[trigger] peers[i].certificate_sha256
            != #[trigger] peers[j].certificate_sha256
}

/// A peer list a bundle accepts at `now`: 1 to 4096 identities, all valid,
/// pinning distinct certificates.
pub open spec fn peer_list_acceptable(peers: Seq<PeerIdentity>, now: u64) -> bool {
    &&& 1 <= peers.len() <= 4096
    &&& forall|i: int| 0 <= i < peers.len() ==> identity_valid(#[trigger] peers[i], now)
    &&& pins_distinct(peers)
}

/// The identity pinned to `digest`, if any.
pub open spec fn pinned(peers: Seq<PeerIdentity>, digest: [u8; 32]) -> Option<PeerIdentity> {
    if exists|i: int| 0 <= i < peers.len() && #[trigger] peers[i].certificate_sha256 == digest {
        Some(peers[choose|i: int| 0 <= i < peers.len() && #[trigger] peers[i].certificate_sha256 == digest])
    } else {
        None
    }
}

fn check_peer_list(peers: &Vec<PeerIdentity>, now_unix_seconds: u64) -> (result: Result<(), Error>)
    ensures
        result is Ok <==> peer_list_acceptable(peers@, now_unix_seconds),
        result matches Err(e) ==> e.code == ErrorCode::InvalidConfiguration || e.code
            == ErrorCode::InvalidIdentity,
{
    if peers.len() == 0 || peers.len() > 4096 {
        return Err(Error::new(ErrorCode::InvalidConfiguration));
    }
    let mut i: usize = 0;
    while i < peers.len()
        invariant
            i <= peers@.len(),
            forall|k: int| 0 <= k < i ==> identity_valid(#[trigger] peers@[k], now_unix_seconds),
            forall|a: int, b: int|
                0 <= a < i && 0 <= b < i && a != b ==> #[trigger] peers@[a].certificate_sha256
                    != #[trigger] peers@[b].certificate_sha256,
        decreases peers@.len() - i,
    {
        peers[i].validate(now_unix_seconds)?;
        let mut j: usize = 0;
        while j < i
            invariant
                j <= i < peers@.len(),
                forall|b: int| 0 <= b < j ==> peers@[b].certificate_sha256 != peers@[i as int].certificate_sha256,
            decreases i - j,
        {
            if same_digest(&peers[j].certificate_sha256, &peers[i].certificate_sha256) {
                return Err(Error::new(ErrorCode::InvalidConfiguration));
            }
            j = j + 1;
        }
        i = i + 1;
    }
    Ok(())
}

/// Role roots plus exact leaf pins and emergency revocations. Revocations
/// are only ever added.
pub struct TrustBundle {
    roots: Vec<Vec<u8>>,
    peers: Vec<PeerIdentity>,
    revoked_services: Vec<String>,
    revoked_certificates: Vec<[u8; 32]>,
}

impl TrustBundle {
    pub closed spec fn peers_spec(&self) -> Seq<PeerIdentity> {
        self.peers@
    }

    /// The revoked service IDs.
    pub closed spec fn revoked_services_spec(&self) -> Set<Seq<char>> {
        Set::new(|id: Seq<char>| exists|i: int| 0 <= i < self.revoked_services@.len() && #[trigger] self.revoked_services@[i]@ == id)
    }

    /// The revoked certificate digests.
    pub closed spec fn revoked_certificates_spec(&self) -> Set<[u8; 32]> {
        self.revoked_certificates@.to_set()
    }

    pub closed spec fn root_count(&self) -> nat {
        self.roots@.len()
    }

    /// A bundle from 1 to 16 roots and an acceptable peer list, with nothing
    /// revoked.
    pub fn new(roots: Vec<Vec<u8>>, peers: Vec<PeerIdentity>, now_unix_seconds: u64) -> (result: Result<Self, Error>)
        ensures
            match result {
                Ok(bundle) => {
                    &&& 1 <= roots@.len() <= 16
                    &&& peer_list_acceptable(peers@, now_unix_seconds)
                    &&& bundle.peers_spec() == peers@
                    &&& bundle.root_count() == roots@.len()
                    &&& bundle.revoked_services_spec() == Set::<Seq<char>>::empty()
                    &&& bundle.revoked_certificates_spec() == Set::<[u8; 32]>::empty()
                },
                Err(_) => !(1 <= roots@.len() <= 16) || !peer_list_acceptable(peers@, now_unix_seconds),
            },
    {
        if roots.len() == 0 || roots.len() > 16 {
            return Err(Error::new(ErrorCode::InvalidConfiguration));
        }
        check_peer_list(&peers, now_unix_seconds)?;
        let bundle = TrustBundle { roots, peers, revoked_services: Vec::new(), revoked_certificates: Vec::new() };
        proof {
            assert(bundle.revoked_services_spec() =~= Set::<Seq<char>>::empty());
            assert(bundle.revoked_certificates_spec() =~= Set::<[u8; 32]>::empty());
        }
        Ok(bundle)
    }

    /// Replaces the pinned identities; an unacceptable list changes nothing.
    pub fn replace_peers(&mut self, peers: Vec<PeerIdentity>, now_unix_seconds: u64) -> (result: Result<(), Error>)
        ensures
            final(self).revoked_services_spec() == old(self).revoked_services_spec(),
            final(self).revoked_certificates_spec() == old(self).revoked_certificates_spec(),
            final(self).root_count() == old(self).root_count(),
            result is Ok <==> peer_list_acceptable(peers@, now_unix_seconds),
            result is Ok ==> final(self).peers_spec() == peers@,
            result is Err ==> final(self).peers_spec() == old(self).peers_spec(),
    {
        check_peer_list(&peers, now_unix_seconds)?;
        self.peers = peers;
        Ok(())
    }

    /// Revokes a service ID of 1 to 128 bytes (`InvalidIdentity` otherwise).
    pub fn emergency_revoke_service(&mut self, service_id: &str) -> (result: Result<(), Error>)
        ensures
            final(self).peers_spec() == old(self).peers_spec(),
            final(self).revoked_certificates_spec() == old(self).revoked_certificates_spec(),
            final(self).root_count() == old(self).root_count(),
            result is Ok <==> 0 < encode_utf8(service_id@).len() <= 128,
            result is Ok ==> final(self).revoked_services_spec() == old(self).revoked_services_spec().insert(service_id@),
            result is Err ==> final(self).revoked_services_spec() == old(self).revoked_services_spec()
                && result->Err_0.code == ErrorCode::InvalidIdentity,
    {
        let bytes = service_id.as_bytes();
        if bytes.len() == 0 || bytes.len() > 128 {
            return Err(Error::new(ErrorCode::InvalidIdentity));
        }
        let ghost before = self.revoked_services@;
        self.revoked_services.push(service_id.to_owned());
        proof {
            assert forall|id: Seq<char>| #[trigger] self.revoked_services_spec().contains(id) <==> old(self).revoked_services_spec().insert(service_id@).contains(id) by {
                if id == service_id@ {
                    assert(self.revoked_services@[before.len() as int]@ == id);
                }
                if exists|i: int| 0 <= i < self.revoked_services@.len() && #[trigger] self.revoked_services@[i]@ == id {
                    let i = choose|i: int| 0 <= i < self.revoked_services@.len() && #[trigger] self.revoked_services@[i]@ == id;
                    if i < before.len() {
                        assert(before[i]@ == id);
                    }
                }
                if exists|i: int| 0 <= i < before.len() && #[trigger] before[i]@ == id {
                    let i = choose|i: int| 0 <= i < before.len() && #[trigger] before[i]@ == id;
                    assert(self.revoked_services@[i]@ == id);
                }
            }
            assert(self.revoked_services_spec() =~= old(self).revoked_services_spec().insert(service_id@));
        }
        Ok(())
    }

    /// Revokes a certificate digest.
    pub fn emergency_revoke_certificate(&mut self, digest: [u8; 32])
        ensures
            final(self).peers_spec() == old(self).peers_spec(),
            final(self).revoked_services_spec() == old(self).revoked_services_spec(),
            final(self).root_count() == old(self).root_count(),
            final(self).revoked_certificates_spec() == old(self).revoked_certificates_spec().insert(digest),
    {
        let ghost before = self.revoked_certificates@;
        self.revoked_certificates.push(digest);
        proof {
            assert(self.revoked_certificates@ == before.push(digest));
            before.lemma_push_to_set_commute(digest);
        }
    }

    fn service_revoked(&self, service_id: &String) -> (revoked: bool)
        ensures
            revoked == self.revoked_services_spec().contains(service_id@),
    {
        let mut i: usize = 0;
        while i < self.revoked_services.len()
            invariant
                i <= self.revoked_services@.len(),
                forall|j: int| 0 <= j < i ==> self.revoked_services@[j]@ != service_id@,
            decreases self.revoked_services@.len() - i,
        {
            if same_text(&self.revoked_services[i], service_id) {
                proof {
                    assert(self.revoked_services@[i as int]@ == service_id@);
                }
                return true;
            }
            i = i + 1;
        }
        proof {
            if self.revoked_services_spec().contains(service_id@) {
                let j = choose|j: int| 0 <= j < self.revoked_services@.len() && #[trigger] self.revoked_services@[j]@ == service_id@;
                assert(self.revoked_services@[j]@ != service_id@);
            }
        }
        false
    }

    fn certificate_revoked(&self, digest: &[u8; 32]) -> (revoked: bool)
        ensures
            revoked == self.revoked_certificates_spec().contains(*digest),
    {
        let mut i: usize = 0;
        while i < self.revoked_certificates.len()
            invariant
                i <= self.revoked_certificates@.len(),
                forall|j: int| 0 <= j < i ==> self.revoked_certificates@[j] != *digest,
            decreases self.revoked_certificates@.len() - i,
        {
            if same_digest(&self.revoked_certificates[i], digest) {
                proof {
                    assert(self.revoked_certificates@.contains(*digest));
                }
                return true;
            }
            i = i + 1;
        }
        false
    }

    /// Whether a peer is still usable at `now`: valid, and neither its
    /// certificate nor its service revoked.
    pub open spec fn active(&self, peer: PeerIdentity, now: u64) -> bool {
        &&& identity_valid(peer, now)
        &&& !self.revoked_certificates_spec().contains(peer.certificate_sha256)
        &&& !self.revoked_services_spec().contains(peer.service_id@)
    }

    /// Checks that a connected peer is still usable: an invalid identity is
    /// `InvalidIdentity`, a revoked one `Revoked`.
    pub fn ensure_active(&self, peer: &PeerIdentity, now_unix_seconds: u64) -> (result: Result<(), Error>)
        ensures
            result is Ok <==> self.active(*peer, now_unix_seconds),
            !identity_valid(*peer, now_unix_seconds) ==> result == Err::<(), Error>(
                Error { code: ErrorCode::InvalidIdentity },
            ),
            identity_valid(*peer, now_unix_seconds) && !self.active(*peer, now_unix_seconds) ==> result
                == Err::<(), Error>(Error { code: ErrorCode::Revoked }),
    {
        peer.validate(now_unix_seconds)?;
        if self.certificate_revoked(&peer.certificate_sha256) || self.service_revoked(&peer.service_id) {
            return Err(Error::new(ErrorCode::Revoked));
        }
        Ok(())
    }

    fn find_pinned(&self, digest: &[u8; 32]) -> (index: Option<usize>)
        ensures
            match index {
                Some(i) => i < self.peers@.len() && self.peers@[i as int].certificate_sha256 == *digest,
                None => forall|i: int| 0 <= i < self.peers@.len() ==> #[trigger] self.peers@[i].certificate_sha256 != *digest,
            },
    {
        let mut i: usize = 0;
        while i < self.peers.len()
            invariant
                i <= self.peers@.len(),
                forall|j: int| 0 <= j < i ==> #[trigger] self.peers@[j].certificate_sha256 != *digest,
            decreases self.peers@.len() - i,
        {
            if same_digest(&self.peers[i].certificate_sha256, digest) {
                return Some(i);
            }
            i = i + 1;
        }
        None
    }

    /// Authorizes a presented leaf certificate: its digest must not be
    /// revoked (`Revoked`) and must pin a valid identity (`InvalidIdentity`)
    /// of the expected role and purpose (`WrongRole`), with the expected
    /// service ID if one is given (`InvalidIdentity`), whose service is not
    /// revoked (`Revoked`).
    pub fn authorize_leaf(
        &self,
        leaf: &[u8],
        expected_role: GatewayRole,
        expected_purpose: IdentityPurpose,
        expected_service_id: Option<&str>,
        now_unix_seconds: u64,
    ) -> (result: Result<PeerIdentity, Error>)
        requires
            pins_distinct(self.peers_spec()),
        ensures
            match authorization(
                *self,
                leaf_digest(leaf@),
                expected_role,
                expected_purpose,
                match expected_service_id {
                    Some(id) => Some(id@),
                    None => None,
                },
                now_unix_seconds,
            ) {
                Ok(peer) => result == Ok::<PeerIdentity, Error>(peer),
                Err(code) => result == Err::<PeerIdentity, Error>(Error { code }),
            },
    {
        let digest = certificate_fingerprint(leaf);
        proof {
            assert(digest@ == sha256_of(leaf@));
            let key = leaf_digest(leaf@);
            assert(key@ == digest@);
            assert(key =~= digest);
        }
        if self.certificate_revoked(&digest) {
            return Err(Error::new(ErrorCode::Revoked));
        }
        let index = match self.find_pinned(&digest) {
            Some(i) => i,
            None => {
                return Err(Error::new(ErrorCode::InvalidIdentity));
            },
        };
        proof {
            let ghost peers = self.peers_spec();
            assert(exists|i: int| 0 <= i < peers.len() && #[trigger] peers[i].certificate_sha256 == digest);
            let k = choose|i: int| 0 <= i < peers.len() && #[trigger] peers[i].certificate_sha256 == digest;
            if k != index {
                assert(peers[k].certificate_sha256 != peers[index as int].certificate_sha256);
            }
            assert(pinned(peers, digest) == Some(peers[index as int]));
        }
        let peer = clone_identity(&self.peers[index]);
        peer.validate(now_unix_seconds)?;
        if peer.role != expected_role || peer.purpose != expected_purpose {
            return Err(Error::new(ErrorCode::WrongRole));
        }
        if let Some(expected) = expected_service_id {
            let x = expected.as_bytes();
            let y = peer.service_id.as_str().as_bytes();
            if !crate::text::bytes_equal(x, y) {
                proof {
                    if expected@ == peer.service_id@ {
                        assert(x@ == y@);
                    }
                }
                return Err(Error::new(ErrorCode::InvalidIdentity));
            }
            proof {
                vstd::utf8::encode_utf8_decode_utf8(expected@);
                vstd::utf8::encode_utf8_decode_utf8(peer.service_id@);
            }
        }
        if self.service_revoked(&peer.service_id) {
            return Err(Error::new(ErrorCode::Revoked));
        }
        Ok(peer)
    }
}

/// The pin of a leaf certificate, as an array.
pub open spec fn leaf_digest(leaf: Seq<u8>) -> [u8; 32] {
    choose|d: [u8; 32]| d@ == sha256_of(leaf)
}

/// What authorizing a leaf with this pin yields.
pub open spec fn authorization(
    bundle: TrustBundle,
    key: [u8; 32],
    expected_role: GatewayRole,
    expected_purpose: IdentityPurpose,
    expected_service_id: Option<Seq<char>>,
    now: u64,
) -> Result<PeerIdentity, ErrorCode> {
    if bundle.revoked_certificates_spec().contains(key) {
        Err(ErrorCode::Revoked)
    } else {
        match pinned(bundle.peers_spec(), key) {
            None => Err(ErrorCode::InvalidIdentity),
            Some(peer) => if !identity_valid(peer, now) {
                Err(ErrorCode::InvalidIdentity)
            } else if peer.role != expected_role || peer.purpose != expected_purpose {
                Err(ErrorCode::WrongRole)
            } else if expected_service_id matches Some(id) && id != peer.service_id@ {
                Err(ErrorCode::InvalidIdentity)
            } else if bundle.revoked_services_spec().contains(peer.service_id@) {
                Err(ErrorCode::Revoked)
            } else {
                Ok(peer)
            },
        }
    }
}

/// Revocation only takes away: a bundle whose revocations include another's
/// considers no peer active that the other refuses.
pub proof fn lemma_revocations_only_deny(
    lenient: TrustBundle,
    strict: TrustBundle,
    peer: PeerIdentity,
    now: u64,
)
    requires
        lenient.revoked_services_spec().subset_of(strict.revoked_services_spec()),
        lenient.revoked_certificates_spec().subset_of(strict.revoked_certificates_spec()),
        strict.active(peer, now),
    ensures
        lenient.active(peer, now),
{
}

} // verus!
