use onionroute_gateway::daemon::acl::{AclConfig, AclEngine, Destination};
use onionroute_gateway::daemon::auth::{AuthenticationGrant, TokenLimits};
use onionroute_gateway::daemon::config::{
    check_listener_address, DnsConfig, GatewayConfig, LimitConfig, PrivacyEventConfig, SocketAddress,
};
use onionroute_gateway::daemon::dns::{encode_name, IpAddress};
use onionroute_gateway::daemon::egress::{DialOutcome, DialStep, TcpEgressConnector};
use onionroute_gateway::daemon::error::GatewayErrorCode;
use onionroute_gateway::daemon::health::{Metrics, PrivacyEventBuffer, PrivacyEventKind};
use onionroute_gateway::daemon::management::{management_response, route_management_request, ManagementRoute};
use onionroute_gateway::daemon::protocol::frame_length;
use onionroute_gateway::daemon::rate_limit::CircuitBreaker;
use onionroute_gateway::daemon::resolver::{
    check_wire_answer, insert_address, validate_client_query, ConnectResolution, UpstreamCursor,
};
use onionroute_gateway::daemon::session::{SessionLease, SessionManager};
use onionroute_gateway::daemon::streams::FlowCredit;

const NOW: u64 = 1_700_000_000_000;

fn v4(a: u8, b: u8, c: u8, d: u8) -> IpAddress {
    IpAddress::V4([a, b, c, d])
}

fn v6(prefix: &[u8], last: &[u8]) -> IpAddress {
    let mut octets = [0u8; 16];
    octets[..prefix.len()].copy_from_slice(prefix);
    octets[16 - last.len()..].copy_from_slice(last);
    IpAddress::V6(octets)
}

fn acl() -> AclEngine {
    AclEngine::new(AclConfig::default())
}

#[test]
fn blocks_ssrf_ranges_and_metadata() {
    for address in [
        v4(127, 0, 0, 1),
        v4(10, 0, 0, 1),
        v4(172, 16, 1, 1),
        v4(192, 168, 1, 1),
        v4(169, 254, 169, 254),
        v4(100, 100, 100, 200),
        v4(168, 63, 129, 16),
        v4(224, 0, 0, 1),
        v6(&[], &[1]),
        v6(&[0xfc, 0x00], &[1]),
        v6(&[0xfe, 0x80], &[1]),
    ] {
        assert_eq!(
            acl().check_ip(&address).unwrap_err().code,
            GatewayErrorCode::PolicyDenied,
            "{address:?}"
        );
    }
    assert!(acl().check_ip(&v4(1, 1, 1, 1)).is_ok());
    assert!(acl()
        .check_ip(&v6(&[0x26, 0x06, 0x47, 0x00, 0x47, 0x00], &[0x11, 0x11]))
        .is_ok());
}

#[test]
fn blocks_hostname_and_admin_ports() {
    assert!(acl()
        .check_destination(&Destination::Hostname("metadata.google.internal".into()), 443)
        .is_err());
    assert!(acl()
        .check_destination(&Destination::Hostname("example.com".into()), 25)
        .is_err());
    assert!(acl()
        .check_destination(&Destination::Hostname("example.com".into()), 22)
        .is_err());
    assert!(acl()
        .check_destination(&Destination::Hostname("example.com".into()), 443)
        .is_ok());
}

fn upstream() -> SocketAddress {
    SocketAddress { ip: v4(1, 1, 1, 1), port: 53 }
}

#[test]
fn public_listeners_are_rejected() {
    let mut config = GatewayConfig::default();
    config.dns.upstreams.push(upstream());
    config.onion_listener = SocketAddress { ip: v4(0, 0, 0, 0), port: 8443 };
    assert_eq!(
        config.validate().unwrap_err().code,
        GatewayErrorCode::InvalidConfiguration
    );
}

#[test]
fn listener_helper_rejects_public_addresses() {
    assert_eq!(
        check_listener_address(&SocketAddress { ip: v4(0, 0, 0, 0), port: 0 })
            .unwrap_err()
            .code,
        GatewayErrorCode::InvalidConfiguration
    );
    assert!(check_listener_address(&SocketAddress { ip: v4(127, 0, 0, 1), port: 0 }).is_ok());
    assert!(check_listener_address(&SocketAddress { ip: v6(&[], &[1]), port: 9090 }).is_ok());
}

#[test]
fn default_configuration_with_an_upstream_validates() {
    let mut config = GatewayConfig::default();
    assert!(config.validate().is_err());
    config.dns.upstreams.push(upstream());
    assert!(config.validate().is_ok());
    config.management_listener = config.onion_listener;
    assert!(config.validate().is_err());
    let mut config = GatewayConfig::default();
    config.dns.upstreams.push(upstream());
    config.gateway_id = "gateway_1".into();
    assert!(config.validate().is_err());
    config.gateway_id = "gateway-1".into();
    config.drain_grace_seconds = 0;
    assert!(config.validate().is_err());
    config.drain_grace_seconds = 10;
    config.dns.max_response_bytes = 65_000;
    assert!(config.validate().is_err());
}

#[test]
fn dns_upstreams_must_be_usable() {
    let mut dns = DnsConfig::default();
    dns.upstreams.push(SocketAddress { ip: v4(224, 0, 0, 1), port: 53 });
    assert!(dns.validate().is_err());
    dns.upstreams[0] = SocketAddress { ip: v4(9, 9, 9, 9), port: 0 };
    assert!(dns.validate().is_err());
    dns.upstreams[0] = SocketAddress { ip: v6(&[], &[]), port: 53 };
    assert!(dns.validate().is_err());
    dns.upstreams[0] = SocketAddress { ip: v4(9, 9, 9, 9), port: 53 };
    assert!(dns.validate().is_ok());
    assert_eq!(dns.timeout(), 3_000);
}

fn header_and_question(query: &[u8], answers: u16) -> Vec<u8> {
    let mut response = Vec::new();
    response.extend_from_slice(&query[..2]);
    response.extend_from_slice(&0x8180u16.to_be_bytes());
    response.extend_from_slice(&1u16.to_be_bytes());
    response.extend_from_slice(&answers.to_be_bytes());
    response.extend_from_slice(&[0u8; 4]);
    response.extend_from_slice(&query[12..]);
    response
}

fn a_response(query: &[u8], address: [u8; 4]) -> Vec<u8> {
    let mut response = header_and_question(query, 1);
    response.extend_from_slice(&[0xc0, 0x0c]);
    response.extend_from_slice(&1u16.to_be_bytes());
    response.extend_from_slice(&1u16.to_be_bytes());
    response.extend_from_slice(&60u32.to_be_bytes());
    response.extend_from_slice(&4u16.to_be_bytes());
    response.extend_from_slice(&address);
    response
}

fn cname_response(query: &[u8], target: &str) -> Vec<u8> {
    let mut encoded_target = Vec::new();
    encode_name(target, &mut encoded_target).unwrap();
    let mut response = header_and_question(query, 1);
    response.extend_from_slice(&[0xc0, 0x0c]);
    response.extend_from_slice(&5u16.to_be_bytes());
    response.extend_from_slice(&1u16.to_be_bytes());
    response.extend_from_slice(&60u32.to_be_bytes());
    response.extend_from_slice(&(encoded_target.len() as u16).to_be_bytes());
    response.extend_from_slice(&encoded_target);
    response
}

fn dns_config() -> DnsConfig {
    DnsConfig { upstreams: vec![SocketAddress { ip: v4(127, 0, 0, 1), port: 53 }], ..DnsConfig::default() }
}

#[test]
fn dns_rebinding_to_private_address_is_blocked() {
    // A and AAAA are queried for each pass; every answer is an A record, whose
    // data the parser still checks.
    let config = dns_config();
    let acl = acl();
    let mut answers = vec![[1, 1, 1, 1], [1, 1, 1, 1], [10, 0, 0, 1], [10, 0, 0, 1]];
    let mut resolution = ConnectResolution::start("example.com").unwrap();
    let error = loop {
        let query = resolution.next_query(&config).unwrap();
        let response = a_response(&query, answers.remove(0));
        match resolution.on_response(&response, &config, &acl) {
            Ok(Some(_)) => panic!("a private answer must not resolve"),
            Ok(None) => continue,
            Err(error) => break error,
        }
    };
    assert_eq!(error.code, GatewayErrorCode::DnsRebinding);
    assert!(answers.is_empty());
}

#[test]
fn cname_chain_limit_is_enforced() {
    let mut config = dns_config();
    config.max_cname_depth = 1;
    let acl = acl();
    let mut targets = vec!["b.example", "c.example"];
    let mut resolution = ConnectResolution::start("a.example").unwrap();
    let error = loop {
        let query = resolution.next_query(&config).unwrap();
        let response = cname_response(&query, targets.remove(0));
        match resolution.on_response(&response, &config, &acl) {
            Ok(Some(_)) => panic!("the alias chain must not resolve"),
            Ok(None) => continue,
            Err(error) => break error,
        }
    };
    assert_eq!(error.code, GatewayErrorCode::DnsFailure);
}

#[test]
fn revalidated_resolution_uses_the_second_answer() {
    let config = dns_config();
    let acl = acl();
    let mut answers = vec![[1, 1, 1, 1], [8, 8, 8, 8], [9, 9, 9, 9], [1, 0, 0, 1], [1, 0, 0, 1]];
    let mut resolution = ConnectResolution::start("Example.COM.").unwrap();
    let resolved = loop {
        let query = resolution.next_query(&config).unwrap();
        let response = a_response(&query, answers.remove(0));
        if let Some(resolved) = resolution.on_response(&response, &config, &acl).unwrap() {
            break resolved;
        }
    };
    assert_eq!(resolved.addresses, vec![v4(1, 0, 0, 1), v4(9, 9, 9, 9)]);
    assert_eq!(resolved.cname_depth, 0);
    assert_eq!(answers.len(), 1);
    assert_eq!(
        ConnectResolution::start("10.0.0.1").unwrap_err().code,
        GatewayErrorCode::PolicyDenied
    );
}

#[test]
fn resolution_without_revalidation_stops_after_one_pass() {
    let mut config = dns_config();
    config.revalidate = false;
    let acl = acl();
    let mut resolution = ConnectResolution::start("example.com").unwrap();
    let query = resolution.next_query(&config).unwrap();
    assert!(resolution
        .on_response(&a_response(&query, [1, 1, 1, 1]), &config, &acl)
        .unwrap()
        .is_none());
    let query = resolution.next_query(&config).unwrap();
    assert_eq!(u16::from_be_bytes([query[query.len() - 4], query[query.len() - 3]]), 28);
    let resolved = resolution
        .on_response(&a_response(&query, [1, 1, 1, 1]), &config, &acl)
        .unwrap()
        .unwrap();
    assert_eq!(resolved.addresses, vec![v4(1, 1, 1, 1)]);
}

#[test]
fn a_wrong_query_id_is_a_dns_failure() {
    let config = dns_config();
    let mut resolution = ConnectResolution::start("example.com").unwrap();
    let query = resolution.next_query(&config).unwrap();
    let mut response = a_response(&query, [1, 1, 1, 1]);
    response[0] ^= 0xff;
    assert_eq!(
        resolution.on_response(&response, &config, &acl()).unwrap_err().code,
        GatewayErrorCode::DnsFailure
    );
}

#[test]
fn addresses_are_kept_sorted_and_distinct() {
    let mut set = Vec::new();
    for address in [v6(&[0x20, 0x01], &[1]), v4(9, 9, 9, 9), v4(1, 1, 1, 1), v4(9, 9, 9, 9)] {
        insert_address(&mut set, address);
    }
    assert_eq!(set, vec![v4(1, 1, 1, 1), v4(9, 9, 9, 9), v6(&[0x20, 0x01], &[1])]);
}

#[test]
fn upstreams_are_used_round_robin() {
    let mut cursor = UpstreamCursor::new();
    let picks: Vec<usize> = (0..5).map(|_| cursor.pick(3)).collect();
    assert_eq!(picks, vec![0, 1, 2, 0, 1]);
}

fn client_query(name: &str, flags: u16, extra: u16) -> Vec<u8> {
    let mut query = Vec::new();
    query.extend_from_slice(&0x1234u16.to_be_bytes());
    query.extend_from_slice(&flags.to_be_bytes());
    query.extend_from_slice(&1u16.to_be_bytes());
    query.extend_from_slice(&0u16.to_be_bytes());
    query.extend_from_slice(&0u16.to_be_bytes());
    query.extend_from_slice(&extra.to_be_bytes());
    encode_name(name, &mut query).unwrap();
    query.extend_from_slice(&1u16.to_be_bytes());
    query.extend_from_slice(&1u16.to_be_bytes());
    query
}

#[test]
fn client_wire_queries_are_checked() {
    let query = client_query("example.com", 0x0100, 0);
    let question = validate_client_query(&query, 512).unwrap();
    assert_eq!(question.id, 0x1234);
    assert_eq!(question.name, "example.com");
    assert_eq!(
        validate_client_query(&query[..10], 512).unwrap_err().code,
        GatewayErrorCode::MessageTooLarge
    );
    assert_eq!(
        validate_client_query(&query, 20).unwrap_err().code,
        GatewayErrorCode::MessageTooLarge
    );
    assert_eq!(
        validate_client_query(&client_query("example.com", 0x8100, 0), 512).unwrap_err().code,
        GatewayErrorCode::ProtocolViolation
    );
    assert_eq!(
        validate_client_query(&client_query("example.com", 0x0100, 1), 512).unwrap_err().code,
        GatewayErrorCode::ProtocolViolation
    );
    let mut trailing = query.clone();
    trailing.push(0);
    assert_eq!(
        validate_client_query(&trailing, 512).unwrap_err().code,
        GatewayErrorCode::ProtocolViolation
    );
    assert_eq!(
        validate_client_query(&client_query("10.0.0.1", 0x0100, 0), 512).unwrap_err().code,
        GatewayErrorCode::PolicyDenied
    );
}

#[test]
fn forwarded_answers_with_private_addresses_are_refused() {
    let config = dns_config();
    let query = client_query("example.com", 0x0100, 0);
    let question = validate_client_query(&query, 512).unwrap();
    assert!(check_wire_answer(&a_response(&query, [1, 1, 1, 1]), &question, &config, &acl()).is_ok());
    assert_eq!(
        check_wire_answer(&a_response(&query, [192, 168, 0, 1]), &question, &config, &acl())
            .unwrap_err()
            .code,
        GatewayErrorCode::DnsRebinding
    );
}

#[test]
fn privacy_events_expire_automatically_on_access() {
    let config = PrivacyEventConfig { ttl_seconds: 1, ..PrivacyEventConfig::default() };
    let mut events = PrivacyEventBuffer::new(config, "gateway-test".into());
    events
        .record(PrivacyEventKind::PolicyRejected, Some([7; 8]), 10_000, 1_700_000_000)
        .unwrap();
    assert_eq!(events.snapshot(10_000).unwrap().len(), 1);
    assert!(events.snapshot(11_050).unwrap().is_empty());
}

#[test]
fn oversized_frame_is_rejected_before_allocation() {
    assert_eq!(
        frame_length(&[0x81, 0x80, 0x04], 64 * 1024).unwrap_err().code,
        GatewayErrorCode::MessageTooLarge
    );
}

#[test]
fn noncanonical_varint_prefix_is_rejected() {
    assert_eq!(
        frame_length(&[0x81, 0x00], 64 * 1024).unwrap_err().code,
        GatewayErrorCode::ProtocolViolation
    );
    assert_eq!(frame_length(&[0x05], 64 * 1024), Ok(5));
}

#[test]
fn flow_credit_blocks_reader_until_window_update() {
    let mut credit = FlowCredit::new(0, 32);
    let wanted = credit.request_size(16);
    assert_eq!(wanted, 1);
    assert!(!credit.take(wanted));
    credit.grant(8).unwrap();
    assert!(credit.take(wanted));
    assert_eq!(credit.outstanding(), 7);
    assert_eq!(credit.grant(26).unwrap_err().code, GatewayErrorCode::ProtocolViolation);
}

fn limits(streams: usize) -> TokenLimits {
    TokenLimits {
        max_sessions: 1,
        max_concurrent_streams: streams,
        connections_per_second: 10,
        connection_burst: 10,
        bytes_per_second: 1_000_000,
        bandwidth_burst_bytes: 1_000_000,
        total_bytes: 10_000_000,
    }
}

fn grant(expires_at_unix_ms: u64) -> AuthenticationGrant {
    AuthenticationGrant {
        expires_at_unix_ms,
        capabilities: vec!["tcp-connect-v1".into()],
        limits: limits(1),
    }
}

fn manager(limits: LimitConfig) -> SessionManager<(), ()> {
    SessionManager::new(limits).unwrap()
}

#[test]
fn token_expiration_fails_closed() {
    let mut manager = manager(LimitConfig::default());
    let error = manager.register(b"opaque", grant(0), ((), ()), NOW, 0).err().unwrap();
    assert_eq!(error.code, GatewayErrorCode::TokenRejected);
}

#[test]
fn draining_rejects_new_work_without_dropping_existing_stream() {
    let mut manager = manager(LimitConfig::default());
    let mut session = manager
        .register(b"opaque", grant(NOW + 60_000), ((), ()), NOW, 0)
        .unwrap();
    let stream = manager.reserve_stream(&mut session, b"first", true, NOW, 0).unwrap();
    manager.set_draining(true);
    assert_eq!(
        manager.reserve_stream(&mut session, b"second", true, NOW, 0).err().unwrap().code,
        GatewayErrorCode::Draining
    );
    assert_eq!(manager.active_streams(), 1);
    manager.release_stream(&mut session, stream);
    assert_eq!(manager.active_streams(), 0);
}

#[test]
fn session_ttl_is_clamped_by_server_policy() {
    let limits = LimitConfig { session_ttl_seconds: 5, ..LimitConfig::default() };
    let mut manager = manager(limits);
    let session = manager
        .register(b"opaque", grant(NOW + 3_600_000), ((), ()), NOW, 0)
        .unwrap();
    assert!(session.expires_at() <= NOW + 6_000);
}

#[test]
fn distinct_destination_scan_limit_is_enforced() {
    let limits = LimitConfig { scan_distinct_destination_limit: 2, ..LimitConfig::default() };
    let mut manager = manager(limits);
    let mut token_grant = grant(NOW + 60_000);
    token_grant.limits.max_concurrent_streams = 8;
    let mut session = manager.register(b"opaque", token_grant, ((), ()), NOW, 0).unwrap();
    let first = manager.reserve_stream(&mut session, b"one", true, NOW, 0).unwrap();
    let second = manager.reserve_stream(&mut session, b"two", true, NOW, 0).unwrap();
    assert_eq!(
        manager.reserve_stream(&mut session, b"three", true, NOW, 0).err().unwrap().code,
        GatewayErrorCode::PolicyDenied
    );
    manager.release_stream(&mut session, first);
    manager.release_stream(&mut session, second);
}

#[test]
fn token_state_table_is_bounded() {
    let limits = LimitConfig {
        max_connections: 2,
        max_sessions: 2,
        max_token_states: 2,
        ..LimitConfig::default()
    };
    let mut manager = manager(limits);
    let expiry = NOW + 60_000;
    let one = manager.register(b"token-one", grant(expiry), ((), ()), NOW, 0).unwrap();
    manager.release_session(one);
    let two = manager.register(b"token-two", grant(expiry), ((), ()), NOW, 0).unwrap();
    manager.release_session(two);
    assert_eq!(
        manager
            .register(b"token-three", grant(expiry), ((), ()), NOW, 0)
            .err()
            .unwrap()
            .code,
        GatewayErrorCode::ResourceExhausted
    );
}

fn security_grant(streams: usize) -> AuthenticationGrant {
    AuthenticationGrant {
        expires_at_unix_ms: NOW + 60_000,
        capabilities: vec!["tcp-connect-v1".into(), "flow-control-v1".into()],
        limits: TokenLimits {
            max_sessions: 2,
            max_concurrent_streams: streams,
            connections_per_second: 1_000,
            connection_burst: 1_000,
            bytes_per_second: 10_000_000,
            bandwidth_burst_bytes: 1_000_000,
            total_bytes: 100_000_000,
        },
    }
}

fn session(limits: LimitConfig) -> (SessionManager<(), ()>, SessionLease) {
    let mut manager = manager(limits);
    let session = manager
        .register(b"opaque-test-token", security_grant(64), ((), ()), NOW, 0)
        .unwrap();
    (manager, session)
}

fn connector(timeout_ms: u64) -> TcpEgressConnector {
    TcpEgressConnector::new(
        acl(),
        CircuitBreaker::new(8, 60_000),
        Metrics::default(),
        PrivacyEventBuffer::new(PrivacyEventConfig::default(), "gateway-test".into()),
        timeout_ms,
    )
}

/// Runs an egress open with a fixed resolution and dial outcome; returns the
/// error and how many dials were asked for.
fn open(
    destination: Destination,
    resolution: Result<Vec<IpAddress>, GatewayErrorCode>,
    dial: fn() -> DialOutcome,
) -> (Option<GatewayErrorCode>, usize) {
    let (mut manager, mut session) = session(LimitConfig::default());
    let mut connector = connector(1_000);
    let mut dials = 0;
    let material = match connector.check_request(&session, &destination, 443, NOW, 10_000, 1_700_000_000) {
        Ok(material) => material,
        Err(error) => return (Some(error.code), dials),
    };
    let _stream = match connector.reserve(&mut manager, &mut session, &material, true, NOW, 0, 10_000) {
        Ok(stream) => stream,
        Err(error) => return (Some(error.code), dials),
    };
    let resolved = match &destination {
        Destination::Hostname(_) => Some(resolution.map_err(|code| {
            onionroute_gateway::daemon::error::GatewayError { code }
        })),
        Destination::Ip(_) => None,
    };
    let mut attempt = match connector.addresses(&destination, resolved, 443, session.handle(), 10_000, 1_700_000_000) {
        Ok(attempt) => attempt,
        Err(error) => return (Some(error.code), dials),
    };
    loop {
        match connector.next_dial(&mut attempt, 10_000, 1_700_000_000) {
            DialStep::Dial(_, _) => {
                dials += 1;
                if connector.on_dial(&mut attempt, dial()) {
                    return (None, dials);
                }
            }
            DialStep::Denied(error) | DialStep::Exhausted(error) => return (Some(error.code), dials),
        }
    }
}

#[test]
fn ssrf_private_ip_never_reaches_dialer() {
    let (error, dials) = open(Destination::Ip(v4(10, 0, 0, 7)), Ok(vec![v4(1, 1, 1, 1)]), || {
        DialOutcome::Connected
    });
    assert_eq!(error, Some(GatewayErrorCode::PolicyDenied));
    assert_eq!(dials, 0);
}

#[test]
fn malicious_resolver_private_answer_is_rechecked() {
    let (error, dials) = open(
        Destination::Hostname("example.com".into()),
        Ok(vec![v4(169, 254, 169, 254)]),
        || DialOutcome::Connected,
    );
    assert_eq!(error, Some(GatewayErrorCode::PolicyDenied));
    assert_eq!(dials, 0);
}

#[test]
fn dns_failure_has_no_clearnet_fallback() {
    let (error, dials) = open(
        Destination::Hostname("example.com".into()),
        Err(GatewayErrorCode::DnsFailure),
        || DialOutcome::Connected,
    );
    assert_eq!(error, Some(GatewayErrorCode::DnsFailure));
    assert_eq!(dials, 0);
}

#[test]
fn slow_egress_connect_is_bounded_by_timeout() {
    let (error, _) = open(
        Destination::Hostname("example.com".into()),
        Ok(vec![v4(1, 1, 1, 1)]),
        || DialOutcome::TimedOut,
    );
    assert_eq!(error, Some(GatewayErrorCode::Timeout));
}

#[test]
fn egress_failure_does_not_fall_back_to_hostname_connect() {
    let (error, dials) = open(
        Destination::Hostname("example.com".into()),
        Ok(vec![v4(1, 1, 1, 1)]),
        || DialOutcome::Failed(onionroute_gateway::daemon::error::GatewayError {
            code: GatewayErrorCode::EgressFailure,
        }),
    );
    assert_eq!(error, Some(GatewayErrorCode::EgressFailure));
    assert_eq!(dials, 1);
}

#[test]
fn public_destination_connects() {
    let (error, dials) = open(
        Destination::Hostname("example.com".into()),
        Ok(vec![v4(1, 1, 1, 1)]),
        || DialOutcome::Connected,
    );
    assert_eq!(error, None);
    assert_eq!(dials, 1);
}

#[test]
fn resource_exhaustion_and_draining_are_fail_closed() {
    let limits = LimitConfig {
        max_streams_per_session: 2,
        max_streams_per_token: 2,
        ..LimitConfig::default()
    };
    let (mut manager, mut session) = session(limits);
    let first = manager.reserve_stream(&mut session, b"one", true, NOW, 0).unwrap();
    let second = manager.reserve_stream(&mut session, b"two", true, NOW, 0).unwrap();
    assert_eq!(
        manager.reserve_stream(&mut session, b"three", true, NOW, 0).err().unwrap().code,
        GatewayErrorCode::ResourceExhausted
    );
    manager.set_draining(true);
    assert_eq!(manager.active_streams(), 2);
    assert_eq!(
        manager.reserve_stream(&mut session, b"four", true, NOW, 0).err().unwrap().code,
        GatewayErrorCode::Draining
    );
    manager.release_stream(&mut session, first);
    manager.release_stream(&mut session, second);
    assert_eq!(manager.active_streams(), 0);
}

#[test]
fn prometheus_output_is_a_closed_schema() {
    let mut metrics = Metrics::default();
    metrics.increment(onionroute_gateway::daemon::health::Metric::OpenedStreams);
    metrics.add(onionroute_gateway::daemon::health::Metric::BytesClientToEgress, 1_234_567);
    let text = metrics.render_prometheus(3, 10, true);
    let lines: Vec<&str> = text.lines().collect();
    assert_eq!(lines.len(), 16);
    assert_eq!(lines[0], "onionroute_gateway_sessions_accepted_total 0");
    assert_eq!(lines[2], "onionroute_gateway_streams_opened_total 1");
    assert_eq!(lines[9], "onionroute_gateway_client_to_egress_bytes_total 1234567");
    assert_eq!(lines[12], "onionroute_gateway_draining_rejections_total 0");
    assert_eq!(lines[13], "onionroute_gateway_active_sessions 3");
    assert_eq!(lines[14], "onionroute_gateway_active_streams 10");
    assert!(text.ends_with("onionroute_gateway_ready 1\n"));
    assert!(metrics.render_prometheus(0, 0, false).ends_with("onionroute_gateway_ready 0\n"));
}

#[test]
fn management_requests_are_routed_by_their_first_line() {
    assert_eq!(
        route_management_request(b"GET /metrics HTTP/1.1\r\nHost: gateway\r\n\r\n"),
        Ok(ManagementRoute::Metrics)
    );
    assert_eq!(
        route_management_request(b"GET /healthz HTTP/1.1\r\n\r\n"),
        Ok(ManagementRoute::Health)
    );
    assert_eq!(
        route_management_request(b"GET /admin HTTP/1.1\r\n\r\n"),
        Ok(ManagementRoute::NotFound)
    );
    assert_eq!(
        route_management_request(b"GET /metrics HTTP/1.1\r\n").unwrap_err().code,
        GatewayErrorCode::MessageTooLarge
    );
    let mut full = b"GET /metrics HTTP/1.1\r\n\r\n".to_vec();
    full.resize(4096, b'a');
    assert_eq!(
        route_management_request(&full).unwrap_err().code,
        GatewayErrorCode::MessageTooLarge
    );
    assert_eq!(
        route_management_request(b"GET /\xff HTTP/1.1\r\n\r\n").unwrap_err().code,
        GatewayErrorCode::ProtocolViolation
    );
}

#[test]
fn management_responses_are_complete() {
    let metrics = Metrics::default();
    assert_eq!(
        management_response(ManagementRoute::Health, &metrics, 0, 0, true),
        "HTTP/1.1 200 OK\r\nContent-Type: text/plain\r\nContent-Length: 6\r\nConnection: close\r\n\r\nready\n"
    );
    assert_eq!(
        management_response(ManagementRoute::Health, &metrics, 0, 0, false),
        "HTTP/1.1 503 Service Unavailable\r\nContent-Type: text/plain\r\nContent-Length: 10\r\nConnection: close\r\n\r\nnot-ready\n"
    );
    assert_eq!(
        management_response(ManagementRoute::NotFound, &metrics, 0, 0, true),
        "HTTP/1.1 404 Not Found\r\nContent-Type: text/plain\r\nContent-Length: 10\r\nConnection: close\r\n\r\nnot-found\n"
    );
    let body = metrics.render_prometheus(1, 2, true);
    let response = management_response(ManagementRoute::Metrics, &metrics, 1, 2, true);
    assert!(response.starts_with("HTTP/1.1 200 OK\r\nContent-Type: text/plain; version=0.0.4\r\n"));
    assert!(response.contains(&format!("Content-Length: {}\r\n", body.len())));
    assert!(response.ends_with(&body));
}

#[test]
fn registration_with_a_handle_counts_one_session() {
    let mut manager = manager(LimitConfig::default());
    let lease = manager
        .register_with_handle(b"opaque", grant(NOW + 60_000), ((), ()), [3; 8], NOW, 0)
        .unwrap();
    assert_eq!(lease.handle(), [3; 8]);
    assert_eq!(manager.active_sessions(), 1);
    let overflowing = LimitConfig { session_ttl_seconds: u64::MAX, ..LimitConfig::default() };
    let mut manager = SessionManager::<(), ()>::new(overflowing).unwrap();
    let error = manager
        .register_with_handle(b"opaque", grant(NOW + 60_000), ((), ()), [3; 8], NOW, 0)
        .err()
        .unwrap();
    assert_eq!(error.code, GatewayErrorCode::Internal);
    assert_eq!(manager.active_sessions(), 0);
}
