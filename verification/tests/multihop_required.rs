use onionroute_gateway::multihop::error::ErrorCode;
use onionroute_gateway::multihop::mux::{FairMuxQueue, OutboundCommand};
use onionroute_gateway::multihop::protocol::{decode_canonical_u32_varint, ReplayCache, NONCE_SIZE};
use onionroute_gateway::multihop::recovery::{FailClosedRecovery, FailureClass, RecoveryAction};
use onionroute_gateway::multihop::route::{
    select_enhanced_route, GatewayDescriptor, GatewayRole, LoadBucket, MaintenanceState,
    ProtocolVersion, RecentFailure, RoutePolicy,
};

fn gateway(
    id: &str,
    role: GatewayRole,
    country: &str,
    provider: &str,
    asn: u32,
    management: &str,
) -> GatewayDescriptor {
    GatewayDescriptor {
        gateway_id: id.into(),
        role,
        country_code: country.into(),
        provider_id: provider.into(),
        autonomous_system: asn,
        management_identity: management.into(),
        protocol_versions: vec![ProtocolVersion { major: 1, minor: 0 }],
        maintenance: MaintenanceState::Active,
        load: LoadBucket::Low,
        revoked: false,
    }
}

#[test]
fn saturated_queue_backpressures_and_round_robins() {
    let mut queue = FairMuxQueue::new(2_000, 1_000, 16).unwrap();
    queue
        .try_push(OutboundCommand::Data {
            session_id: 1,
            payload: vec![1; 100],
        })
        .unwrap();
    queue
        .try_push(OutboundCommand::Data {
            session_id: 3,
            payload: vec![3; 100],
        })
        .unwrap();
    assert!(matches!(
        queue.pop_next(),
        Some(OutboundCommand::Data { session_id: 1, .. })
    ));
    assert!(matches!(
        queue.pop_next(),
        Some(OutboundCommand::Data { session_id: 3, .. })
    ));
    assert_eq!(queue.queued_bytes(), 0);
}

#[test]
fn ten_thousand_producers_cannot_exceed_queue_budget() {
    let maximum = 4 * 1024 * 1024;
    let mut queue = FairMuxQueue::new(maximum, 64 * 1024, 256).unwrap();
    let payload = vec![0u8; 32 * 1024];
    let mut backpressured = 0usize;
    for index in 0..10_000u64 {
        let session_id = index.saturating_mul(2).saturating_add(1);
        match queue.try_push(OutboundCommand::Data {
            session_id,
            payload: payload.clone(),
        }) {
            Ok(()) => assert!(queue.queued_bytes() <= maximum),
            Err(error) => {
                assert_eq!(error.code, ErrorCode::Backpressure);
                backpressured += 1;
            }
        }
    }
    assert!(backpressured > 0);
    while queue.pop_next().is_some() {
        assert!(queue.queued_bytes() <= maximum);
    }
    assert_eq!(queue.queued_bytes(), 0);
}

#[test]
fn replay_cache_rejects_duplicate_nonce() {
    let mut cache = ReplayCache::default();
    let nonce = [7u8; NONCE_SIZE];
    cache.check_and_insert("entry-a", &nonce, 1_000).unwrap();
    assert_eq!(
        cache.check_and_insert("entry-a", &nonce, 1_000).unwrap_err().code,
        ErrorCode::ReplayDetected
    );
    cache.check_and_insert("entry-b", &nonce, 1_000).unwrap();
}

#[test]
fn non_canonical_prefix_is_rejected() {
    assert!(decode_canonical_u32_varint(&[0x81, 0x00]).is_err());
}

#[test]
fn diversity_is_a_hard_requirement() {
    let entry = gateway("entry", GatewayRole::Entry, "DE", "provider-a", 64501, "ops-a");
    let exits = vec![
        gateway("same-provider", GatewayRole::Exit, "DE", "provider-a", 64502, "ops-b"),
        gateway("same-as", GatewayRole::Exit, "DE", "provider-b", 64501, "ops-b"),
        gateway("same-management", GatewayRole::Exit, "DE", "provider-b", 64502, "ops-a"),
    ];
    let error = select_enhanced_route(
        &entry,
        &exits,
        &RoutePolicy {
            exit_country: "DE".into(),
            required_version: ProtocolVersion { major: 1, minor: 0 },
            maximum_load: LoadBucket::High,
        },
        &[],
    )
    .unwrap_err();
    assert_eq!(error.code, ErrorCode::PolicyDenied);
}

#[test]
fn failure_can_only_reconnect_enhanced_or_block() {
    let entry = gateway("entry", GatewayRole::Entry, "NL", "provider-a", 64501, "ops-a");
    let exits = vec![
        gateway("exit-a", GatewayRole::Exit, "NL", "provider-b", 64502, "ops-b"),
        gateway("exit-b", GatewayRole::Exit, "NL", "provider-c", 64503, "ops-c"),
    ];
    let policy = RoutePolicy {
        exit_country: "NL".into(),
        required_version: ProtocolVersion { major: 1, minor: 0 },
        maximum_load: LoadBucket::High,
    };
    let mut recovery = FailClosedRecovery::default();
    let action = recovery
        .recover(
            FailureClass::Transport,
            &entry,
            &exits,
            &policy,
            &[RecentFailure {
                gateway_id: "exit-a".into(),
                consecutive_failures: 8,
            }],
        )
        .unwrap();
    match action {
        RecoveryAction::ReconnectEnhanced { route, after_ms } => {
            assert_eq!(route.exit.gateway_id, "exit-b");
            assert!(after_ms >= 250);
        }
        RecoveryAction::Block => panic!("a safe enhanced route exists"),
    }

    assert_eq!(
        recovery
            .recover(FailureClass::Policy, &entry, &exits, &policy, &[])
            .unwrap(),
        RecoveryAction::Block
    );
}

#[test]
fn no_safe_diverse_route_blocks_instead_of_falling_back() {
    let entry = gateway("entry", GatewayRole::Entry, "NL", "provider-a", 64501, "ops-a");
    let exits = vec![gateway(
        "colliding-exit",
        GatewayRole::Exit,
        "NL",
        "provider-a",
        64501,
        "ops-a",
    )];
    let mut recovery = FailClosedRecovery::default();
    assert_eq!(
        recovery
            .recover(
                FailureClass::Transport,
                &entry,
                &exits,
                &RoutePolicy {
                    exit_country: "NL".into(),
                    required_version: ProtocolVersion { major: 1, minor: 0 },
                    maximum_load: LoadBucket::High,
                },
                &[],
            )
            .unwrap(),
        RecoveryAction::Block
    );
}

#[test]
fn backoff_doubles_caps_and_resets_after_success() {
    let entry = gateway("entry", GatewayRole::Entry, "NL", "provider-a", 64501, "ops-a");
    let exits = vec![gateway("exit-b", GatewayRole::Exit, "NL", "provider-c", 64503, "ops-c")];
    let policy = RoutePolicy {
        exit_country: "NL".into(),
        required_version: ProtocolVersion { major: 1, minor: 0 },
        maximum_load: LoadBucket::High,
    };
    let mut recovery = FailClosedRecovery::default();
    let mut waits = Vec::new();
    for _ in 0..10 {
        match recovery.recover(FailureClass::Transport, &entry, &exits, &policy, &[]).unwrap() {
            RecoveryAction::ReconnectEnhanced { after_ms, .. } => waits.push(after_ms),
            RecoveryAction::Block => panic!("a safe enhanced route exists"),
        }
    }
    assert_eq!(
        waits,
        vec![250, 500, 1000, 2000, 4000, 8000, 16000, 30000, 30000, 30000]
    );
    recovery.on_success();
    match recovery.recover(FailureClass::Transport, &entry, &exits, &policy, &[]).unwrap() {
        RecoveryAction::ReconnectEnhanced { after_ms, .. } => assert_eq!(after_ms, 250),
        RecoveryAction::Block => panic!("a safe enhanced route exists"),
    }
}
