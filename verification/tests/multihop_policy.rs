use onionroute_gateway::daemon::dns::IpAddress;
use onionroute_gateway::multihop::error::ErrorCode;
use onionroute_gateway::multihop::exit::{failed_open, DefaultExitAcl, Destination};
use onionroute_gateway::multihop::identity::{
    certificate_fingerprint, IdentityMaterial, IdentityPurpose, IdentityStore, PeerIdentity, TrustBundle,
};
use onionroute_gateway::multihop::mux::{ConnectionPoolLimiter, PoolLimits};
use onionroute_gateway::multihop::route::GatewayRole;
use onionroute_gateway::multihop::handshake::{exit_answer_hello, start_entry_handshake_with_nonce};
use onionroute_gateway::multihop::protocol::{HandshakeConfig, ProtocolLimits};
use onionroute_gateway::multihop::route::ProtocolVersion;

const NOW: u64 = 1_800_000_000;

fn v4(a: u8, b: u8, c: u8, d: u8) -> IpAddress {
    IpAddress::V4([a, b, c, d])
}

fn v6_last(prefix: [u8; 2], last: u8) -> IpAddress {
    let mut octets = [0u8; 16];
    octets[0] = prefix[0];
    octets[1] = prefix[1];
    octets[15] = last;
    IpAddress::V6(octets)
}

#[test]
fn default_acl_blocks_management_and_ssrf_targets() {
    let acl = DefaultExitAcl::new(Vec::new(), vec![(v4(203, 0, 113, 0), 24)]).unwrap();
    for address in [
        v4(127, 0, 0, 1),
        v4(10, 0, 0, 1),
        v4(169, 254, 169, 254),
        v6_last([0, 0], 1),
        v6_last([0xfc, 0x00], 1),
    ] {
        assert_eq!(acl.check_resolved(&address).unwrap_err().code, ErrorCode::PolicyDenied);
    }
    assert!(acl.check_resolved(&v4(1, 1, 1, 1)).is_ok());
    assert!(acl
        .check_requested(&Destination::Hostname("example.com".into()), 443)
        .is_ok());
    assert!(acl
        .check_requested(&Destination::Hostname("metadata.google.internal".into()), 443)
        .is_err());
}

#[test]
fn management_networks_are_denied_at_the_exit() {
    let acl = DefaultExitAcl::new(vec![8080], vec![(v4(198, 51, 100, 0), 24)]).unwrap();
    assert!(acl.check_resolved(&v4(198, 51, 100, 77)).is_err());
    assert!(acl.check_resolved(&v4(198, 51, 101, 77)).is_ok());
    assert!(acl
        .check_requested(&Destination::Hostname("example.com".into()), 8080)
        .is_err());
    assert!(acl.check_requested(&Destination::Ip(v4(1, 1, 1, 1)), 25).is_err());
    assert!(DefaultExitAcl::new(Vec::new(), vec![(v4(1, 2, 3, 4), 33)]).is_err());
}

#[test]
fn pool_is_bounded_per_exit() {
    let mut pool = ConnectionPoolLimiter::new(PoolLimits {
        maximum_total_connections: 2,
        maximum_connections_per_exit: 1,
    })
    .unwrap();
    pool.try_acquire("exit-a").unwrap();
    assert_eq!(
        pool.try_acquire("exit-a").err().unwrap().code,
        ErrorCode::ResourceExhausted
    );
    pool.release("exit-a");
    pool.try_acquire("exit-a").unwrap();
}

fn peer(service_id: &str, role: GatewayRole, fingerprint: u8) -> PeerIdentity {
    PeerIdentity {
        service_id: service_id.into(),
        role,
        purpose: IdentityPurpose::InterGatewayDataPlane,
        certificate_sha256: [fingerprint; 32],
        valid_from_unix_seconds: NOW - 60,
        valid_until_unix_seconds: NOW + 3 * 60 * 60,
    }
}

#[test]
fn emergency_revocation_is_checked_on_existing_peer_identity() {
    let entry_peer = peer("entry-a", GatewayRole::Entry, 1);
    let exit_peer = peer("exit-a", GatewayRole::Exit, 2);
    let mut trust = TrustBundle::new(
        vec![b"entry-data-plane-ca".to_vec()],
        vec![entry_peer.clone(), exit_peer.clone()],
        NOW,
    )
    .unwrap();
    assert!(trust.ensure_active(&entry_peer, NOW).is_ok());
    trust.emergency_revoke_service("entry-a").unwrap();
    assert_eq!(
        trust.ensure_active(&entry_peer, NOW).unwrap_err().code,
        ErrorCode::Revoked
    );
    assert!(trust.ensure_active(&exit_peer, NOW).is_ok());
}

#[test]
fn exit_rejects_private_dns_result_before_any_dial() {
    let acl = DefaultExitAcl::new(Vec::new(), Vec::new()).unwrap();
    let destination = Destination::Hostname("example.com".into());
    acl.check_requested(&destination, 443).unwrap();
    let resolved = vec![v4(127, 0, 0, 1)];
    DefaultExitAcl::check_resolution(&resolved).unwrap();
    let mut dials = 0;
    let mut error = None;
    for address in &resolved {
        if let Err(refused) = acl.check_resolved(address) {
            error = Some(refused.code);
            break;
        }
        dials += 1;
    }
    assert_eq!(error, Some(ErrorCode::PolicyDenied));
    assert_eq!(dials, 0);
    assert_eq!(failed_open(false).code, ErrorCode::PolicyDenied);
    assert_eq!(failed_open(true).code, ErrorCode::TransportFailure);
    assert!(DefaultExitAcl::check_resolution(&Vec::new()).is_err());
}

#[test]
fn identity_material_is_pinned_to_its_leaf_and_stores_keep_their_role() {
    let leaf = b"entry leaf certificate".to_vec();
    let mut descriptor = peer("entry-a", GatewayRole::Entry, 0);
    descriptor.certificate_sha256 = certificate_fingerprint(&leaf);
    let material =
        IdentityMaterial::new(descriptor.clone(), vec![leaf.clone()], vec![1, 2, 3], NOW).unwrap();
    assert_eq!(material.descriptor().service_id, "entry-a");
    let unpinned = IdentityMaterial::new(peer("entry-a", GatewayRole::Entry, 7), vec![leaf.clone()], vec![1], NOW);
    assert_eq!(unpinned.err().map(|e| e.code), Some(ErrorCode::InvalidIdentity));
    let empty_chain = IdentityMaterial::new(descriptor.clone(), Vec::new(), vec![1], NOW);
    assert_eq!(empty_chain.err().map(|e| e.code), Some(ErrorCode::InvalidIdentity));

    let mut store = IdentityStore::new(material).unwrap();
    assert!(store.snapshot(NOW).is_ok());
    let exit_leaf = b"exit leaf certificate".to_vec();
    let mut exit_descriptor = peer("exit-a", GatewayRole::Exit, 0);
    exit_descriptor.certificate_sha256 = certificate_fingerprint(&exit_leaf);
    let exit_material = IdentityMaterial::new(exit_descriptor, vec![exit_leaf], vec![4], NOW).unwrap();
    assert_eq!(store.install(exit_material, NOW).err().map(|e| e.code), Some(ErrorCode::WrongRole));
    let replacement = IdentityMaterial::new(descriptor.clone(), vec![leaf.clone()], vec![5], NOW).unwrap();
    assert!(store.install(replacement, NOW).is_ok());

    let mut management = descriptor;
    management.purpose = IdentityPurpose::Management;
    let management_material = IdentityMaterial::new(management, vec![leaf], vec![6], NOW).unwrap();
    assert_eq!(
        IdentityStore::new(management_material).err().map(|e| e.code),
        Some(ErrorCode::InvalidIdentity)
    );
}

#[test]
fn entry_and_exit_answer_with_the_given_values() {
    let entry = peer("entry-a", GatewayRole::Entry, 1);
    let exit = peer("exit-a", GatewayRole::Exit, 2);
    let config = HandshakeConfig {
        minimum_version: ProtocolVersion { major: 1, minor: 0 },
        maximum_version: ProtocolVersion { major: 1, minor: 0 },
        limits: ProtocolLimits::default(),
    };
    let (state, frame) = start_entry_handshake_with_nonce(&entry, &exit, &config, [3; 32], NOW).unwrap();
    assert_eq!(state.client_nonce, [3; 32]);
    assert_eq!(frame.sequence, 1);
    assert!(frame.connection_id.is_empty());
    assert_eq!(
        start_entry_handshake_with_nonce(&exit, &entry, &config, [3; 32], NOW).err().map(|e| e.code),
        Some(ErrorCode::WrongRole)
    );
    let (answer, hello_frame, finished_frame) =
        exit_answer_hello(&state.hello, &exit, &entry, &config, &[0; 32], [4; 32], [5; 16]).unwrap();
    assert_eq!(answer.server_nonce, [4; 32]);
    assert_eq!(answer.connection_id, [5; 16]);
    assert_eq!(answer.client_nonce, [3; 32]);
    assert_eq!(hello_frame.sequence, 1);
    assert_eq!(hello_frame.connection_id, vec![5; 16]);
    assert_eq!(finished_frame.sequence, 2);
}
