use onionroute_gateway::daemon::dns::read_name;
use onionroute_gateway::daemon::error::GatewayErrorCode;
use onionroute_gateway::daemon::protocol::{validate_envelope, version};
use onionroute_gateway::daemon::rate_limit::CircuitBreaker;
use onionroute_gateway::daemon::wire::{Body, GatewayFrame, GoAway};
use onionroute_gateway::daemon::config::LimitConfig;
use onionroute_gateway::daemon::protocol::{accept_client_hello_with, outgoing_frame_prefix};
use onionroute_gateway::daemon::wire::{ClientHello, ProtocolVersion, ProtocolVersionRange};
use onionroute_gateway::daemon::rate_limit::reserve_quota;

#[test]
fn compression_pointer_loop_is_rejected() {
    let mut wire = vec![0u8; 14];
    wire[12] = 0xc0;
    wire[13] = 0x0c;
    assert!(read_name(&wire, 12).is_err());
}

#[test]
fn sequence_and_session_are_strict() {
    let frame = GatewayFrame {
        version: Some(version()),
        session_id: vec![1; 16],
        sequence: 2,
        body: Some(Body::GoAway(GoAway {
            last_accepted_stream_id: 0,
            reason: None,
        })),
    };
    assert!(validate_envelope(&frame, 2, &[1; 16]).is_ok());
    assert!(validate_envelope(&frame, 1, &[1; 16]).is_err());
    assert!(validate_envelope(&frame, 2, &[2; 16]).is_err());
}

#[test]
fn circuit_opens_at_threshold() {
    let mut breaker = CircuitBreaker::new(2, 60_000);
    breaker.record_failure(0);
    assert!(breaker.before_connect(0).is_ok());
    breaker.record_failure(0);
    assert_eq!(
        breaker.before_connect(0).unwrap_err().code,
        GatewayErrorCode::CircuitOpen
    );
}

#[test]
fn hello_is_answered_with_the_given_session_id_and_nonce() {
    let hello = GatewayFrame {
        version: Some(version()),
        session_id: Vec::new(),
        sequence: 1,
        body: Some(Body::ClientHello(ClientHello {
            supported_versions: Some(ProtocolVersionRange {
                minimum: Some(ProtocolVersion { major: 1, minor: 0 }),
                maximum: Some(ProtocolVersion { major: 1, minor: 0 }),
            }),
            client_nonce: vec![9; 16],
            route_mode: 2,
            requested_features: vec!["tcp-connect-v1".into()],
        })),
    };
    let limits = LimitConfig::default();
    let (response, session_id) =
        accept_client_hello_with(&hello, &limits, &"gateway-a".to_owned(), [4; 16], [5; 16]).unwrap();
    assert_eq!(session_id, vec![4; 16]);
    assert_eq!(response.session_id, vec![4; 16]);
    assert_eq!(response.sequence, 1);
    match response.body {
        Some(Body::ServerHello(server)) => {
            assert_eq!(server.server_nonce, vec![5; 16]);
            assert_eq!(server.ephemeral_session_id, vec![4; 16]);
            assert_eq!(server.gateway_id, "gateway-a");
            assert_eq!(server.session_role, 3);
        }
        _ => panic!("expected a server hello"),
    }
    assert_eq!(outgoing_frame_prefix(300, 1024).unwrap(), vec![0xac, 0x02]);
    assert_eq!(
        outgoing_frame_prefix(0, 1024).unwrap_err().code,
        GatewayErrorCode::MessageTooLarge
    );
    assert_eq!(
        outgoing_frame_prefix(2048, 1024).unwrap_err().code,
        GatewayErrorCode::MessageTooLarge
    );
}

#[test]
fn byte_quota_is_a_hard_total() {
    assert_eq!(reserve_quota(10, 5, 20).unwrap(), 15);
    assert_eq!(reserve_quota(10, 10, 20).unwrap(), 20);
    assert_eq!(reserve_quota(10, 11, 20).unwrap_err().code, GatewayErrorCode::BandwidthExhausted);
    assert_eq!(
        reserve_quota(u64::MAX, 1, u64::MAX).unwrap_err().code,
        GatewayErrorCode::BandwidthExhausted
    );
}
