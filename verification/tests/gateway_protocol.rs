use onionroute_gateway::gateway::binding::session_nonce_binding;
use onionroute_gateway::gateway::client::{start_client_with_nonce, AuthenticationMaterial, ClientConfig};
use onionroute_gateway::gateway::debug::{DebugDecoder, FrameSummary};
use onionroute_gateway::gateway::error::ProtocolError;
use onionroute_gateway::gateway::flow::FlowController;
use onionroute_gateway::gateway::framing::{decode_frame_bytes, encode_frame, FrameDecoder};
use onionroute_gateway::gateway::limits::{ProtocolLimits, ABSOLUTE_MAX_FRAME_SIZE};
use onionroute_gateway::gateway::negotiation::{
    negotiate_capabilities, select_version, validate_capabilities, verify_enabled_capabilities,
    verify_server_selection, version, version_range, FLOW_CONTROL_V1, TCP_CONNECT_V1,
};
use onionroute_gateway::gateway::scheduler::{FairScheduler, OutboundItem};
use onionroute_gateway::gateway::server::{
    start_server, AuthenticationDecision, ServerAuthOutcome, ServerConfig, ServerDecisionOutcome,
    ServerHelloOutcome,
};
use onionroute_gateway::gateway::session::{graceful_go_away, Session, SessionPhase};
use onionroute_gateway::gateway::validation::{
    validate_frame, validate_hostname, validate_stream_id,
};
use onionroute_gateway::gateway::wire::{
    AddressFamily, AnonymityMode, Body, CloseCode, Data, Destination, DestinationValue, ErrorCode,
    GatewayFrame, OpenTcpStream, Ping, ProtocolVersion, ResolveDomain,
};

fn data(stream_id: u64, marker: u8) -> OutboundItem {
    OutboundItem {
        body: Body::Data(Data {
            stream_id,
            payload: vec![marker],
        }),
        accounted_bytes: 1,
    }
}

#[test]
fn streams_are_round_robin_and_control_cannot_starve_data() {
    let mut scheduler = FairScheduler::new(1024, 512, 64).unwrap();
    scheduler.enqueue_stream(1, data(1, 1)).unwrap();
    scheduler.enqueue_stream(1, data(1, 2)).unwrap();
    scheduler.enqueue_stream(3, data(3, 3)).unwrap();
    for _ in 0..16 {
        scheduler
            .enqueue_control(OutboundItem {
                body: Body::Ping(Ping { nonce: vec![0; 8] }),
                accounted_bytes: 1,
            })
            .unwrap();
    }

    for _ in 0..8 {
        assert!(matches!(scheduler.pop_next().unwrap().body, Body::Ping(_)));
    }
    assert!(matches!(
        scheduler.pop_next().unwrap().body,
        Body::Data(Data { stream_id: 1, .. })
    ));
    for _ in 0..8 {
        assert!(matches!(scheduler.pop_next().unwrap().body, Body::Ping(_)));
    }
    assert!(matches!(
        scheduler.pop_next().unwrap().body,
        Body::Data(Data { stream_id: 3, .. })
    ));
}

#[test]
fn stream_ids_are_monotonic_and_never_reused() {
    let mut flow = FlowController::new(1024, 1024, 2).unwrap();
    flow.open_local(1, 512, 0).unwrap();
    flow.confirm_local_open(1, 512, 0).unwrap();
    flow.reject_or_close(1).unwrap();
    assert!(matches!(
        flow.open_local(1, 512, 0),
        Err(ProtocolError::InvalidStreamId)
    ));
    assert!(matches!(
        flow.open_local(2, 512, 0),
        Err(ProtocolError::InvalidStreamId)
    ));
    flow.open_local(3, 512, 0).unwrap();
}

#[test]
fn data_consumes_both_windows_and_backpressures() {
    let mut flow = FlowController::new(10, 10, 1).unwrap();
    flow.open_local(1, 6, 0).unwrap();
    flow.confirm_local_open(1, 6, 0).unwrap();
    flow.debit_send(1, 6, 0).unwrap();
    assert!(matches!(
        flow.debit_send(1, 1, 0),
        Err(ProtocolError::Backpressure)
    ));
    flow.receive_window_update(1, 2, 0).unwrap();
    flow.receive_window_update(0, 2, 0).unwrap();
    flow.debit_send(1, 2, 0).unwrap();

    flow.debit_receive(1, 6, 0).unwrap();
    assert!(matches!(
        flow.debit_receive(1, 1, 0),
        Err(ProtocolError::FlowControlViolation)
    ));
}

#[test]
fn credit_cannot_overflow_hard_window() {
    let mut flow = FlowController::new(1024, 1024, 1).unwrap();
    flow.open_local(1, 1024, 0).unwrap();
    flow.confirm_local_open(1, 4 * 1024 * 1024, 0).unwrap();
    assert!(matches!(
        flow.receive_window_update(1, 1, 0),
        Err(ProtocolError::FlowControlViolation)
    ));
}

/// The encoded body of the reference ping frame: sequence 1, version 1.0,
/// no session, a ping with nonce 0..8.
fn ping_frame_body() -> Vec<u8> {
    vec![
        0x08, 0x01, 0x12, 0x02, 0x08, 0x01, 0xca, 0x01, 0x0a, 0x0a, 0x08, 0x00, 0x01, 0x02, 0x03,
        0x04, 0x05, 0x06, 0x07,
    ]
}

fn ping_frame() -> GatewayFrame {
    GatewayFrame {
        sequence: 1,
        version: Some(ProtocolVersion { major: 1, minor: 0 }),
        critical_extension_ids: Vec::new(),
        session_id: Vec::new(),
        body: Some(Body::Ping(Ping {
            nonce: (0u8..8).collect(),
        })),
    }
}

#[test]
fn golden_ping_frame_is_stable() {
    let encoded = encode_frame(&ping_frame_body(), ABSOLUTE_MAX_FRAME_SIZE).unwrap();
    let expected = [
        0x13, 0x08, 0x01, 0x12, 0x02, 0x08, 0x01, 0xca, 0x01, 0x0a, 0x0a, 0x08, 0x00, 0x01, 0x02,
        0x03, 0x04, 0x05, 0x06, 0x07,
    ];
    assert_eq!(encoded, expected);
}

#[test]
fn incremental_decoder_accepts_every_chunk_boundary() {
    let encoded = encode_frame(&ping_frame_body(), ABSOLUTE_MAX_FRAME_SIZE).unwrap();
    for boundary in 0..=encoded.len() {
        let mut decoder = FrameDecoder::new(ABSOLUTE_MAX_FRAME_SIZE).unwrap();
        let first = decoder.push(&encoded[..boundary]).unwrap();
        assert_eq!(first.consumed, boundary);
        let decoded = if let Some(frame) = first.frame {
            frame
        } else {
            decoder
                .push(&encoded[boundary..])
                .unwrap()
                .frame
                .expect("complete second chunk")
        };
        assert_eq!(decoded.sequence, 1);
    }
}

#[test]
fn unknown_message_tag_and_duplicate_fields_are_rejected() {
    let unknown = [0x08, 0x01, 0x12, 0x02, 0x08, 0x01, 0xea, 0x01, 0x00];
    assert!(matches!(
        decode_frame_bytes(&unknown),
        Err(ProtocolError::UnknownMessageTag(29))
    ));

    let duplicate_sequence = [
        0x08, 0x01, 0x08, 0x02, 0x12, 0x02, 0x08, 0x01, 0xca, 0x01, 0x0a, 0x0a, 0x08, 0x00, 0x01,
        0x02, 0x03, 0x04, 0x05, 0x06, 0x07,
    ];
    assert!(matches!(
        decode_frame_bytes(&duplicate_sequence),
        Err(ProtocolError::DuplicateField(1))
    ));
}

#[test]
fn length_prefix_is_canonical_and_bounded_before_allocation() {
    let mut decoder = FrameDecoder::new(1024).unwrap();
    assert!(matches!(
        decoder.push(&[0x80, 0x00]),
        Err(ProtocolError::NonCanonicalVarint)
    ));
    let encoded = encode_frame(&ping_frame_body(), 1024).unwrap();
    assert!(decoder.push(&encoded).unwrap().frame.is_some());

    let mut decoder = FrameDecoder::new(1024).unwrap();
    assert!(matches!(
        decoder.push(&[0x81, 0x08]),
        Err(ProtocolError::FrameTooLarge { .. })
    ));
    assert_eq!(decoder.buffered_bytes(), 0);
}

#[test]
fn version_selection_is_maximal_and_detects_downgrade() {
    let client = version_range(1, 1, 5);
    let server = version_range(1, 0, 3);
    assert_eq!(select_version(&client, &server).unwrap(), version(1, 3));
    assert!(matches!(
        verify_server_selection(&client, &server, &version(1, 2)),
        Err(ProtocolError::SilentDowngrade)
    ));
}

#[test]
fn unknown_critical_extension_is_rejected() {
    let mut frame = ping_frame();
    frame.critical_extension_ids.push(77);
    assert!(validate_frame(&frame, &[]).is_err());
}

#[test]
fn debug_summary_redacts_payload_and_destination() {
    let secret_hostname = "private.example";
    let frame = GatewayFrame {
        sequence: 9,
        version: Some(version(1, 0)),
        critical_extension_ids: Vec::new(),
        session_id: vec![0; 16],
        body: Some(Body::OpenTcpStream(OpenTcpStream {
            stream_id: 1,
            destination: Some(Destination {
                value: Some(DestinationValue::Hostname(secret_hostname.to_owned())),
            }),
            destination_port: 443,
            timeout_ms: 10_000,
            policy_flags: 0,
            initial_receive_window: 1024,
        })),
    };
    let rendered = format!(
        "{:?} {}",
        FrameSummary::from_frame(&frame),
        FrameSummary::from_frame(&frame).render()
    );
    assert!(!rendered.contains(secret_hostname));

    let payload = b"do-not-log-this".to_vec();
    let data = GatewayFrame {
        body: Some(Body::Data(Data {
            stream_id: 1,
            payload: payload.clone(),
        })),
        ..frame
    };
    let rendered = format!("{:?}", FrameSummary::from_frame(&data));
    assert!(!rendered.contains(std::str::from_utf8(&payload).unwrap()));
    assert!(rendered.contains("payload-redacted"));
}

#[test]
fn summary_renders_all_parts() {
    let summary = FrameSummary::from_frame(&GatewayFrame {
        sequence: 42,
        version: Some(version(1, 0)),
        critical_extension_ids: Vec::new(),
        session_id: vec![0; 16],
        body: Some(Body::Data(Data {
            stream_id: 7,
            payload: vec![1, 2, 3],
        })),
    });
    assert_eq!(
        summary.render(),
        "seq=42 type=Data stream=7 sensitive_bytes=3 detail=payload-redacted"
    );
    let ping = FrameSummary::from_frame(&ping_frame());
    assert_eq!(ping.render(), "seq=1 type=Ping detail=nonce-redacted");
}

#[test]
fn debug_decoder_frames_bytes() {
    let mut decoder = DebugDecoder::new(ABSOLUTE_MAX_FRAME_SIZE).unwrap();
    let encoded = encode_frame(&ping_frame_body(), ABSOLUTE_MAX_FRAME_SIZE).unwrap();
    let progress = decoder.push(&encoded).unwrap();
    assert_eq!(progress.consumed, encoded.len());
    let envelope = progress.frame.unwrap();
    assert_eq!(envelope.sequence, 1);
    assert_eq!(envelope.body_tag, Some(25));
    assert!(DebugDecoder::new(ABSOLUTE_MAX_FRAME_SIZE + 1).is_err());
}

#[test]
fn capability_names_are_checked() {
    assert!(validate_capabilities(&["tcp-connect-v1".to_owned()]).is_ok());
    assert!(matches!(
        validate_capabilities(&["Upper".to_owned()]),
        Err(ProtocolError::InvalidField("capability_name"))
    ));
    assert!(matches!(
        validate_capabilities(&["required:-x".to_owned()]),
        Err(ProtocolError::InvalidField("capability_name"))
    ));
    let too_many: Vec<String> = (0..33).map(|i| format!("c{i}")).collect();
    assert!(matches!(
        validate_capabilities(&too_many),
        Err(ProtocolError::InvalidField("capabilities"))
    ));
}

#[test]
fn negotiation_enables_supported_and_requires_required() {
    let supported = vec![TCP_CONNECT_V1.to_owned(), FLOW_CONTROL_V1.to_owned()];
    let enabled = negotiate_capabilities(
        &[
            "required:tcp-connect-v1".to_owned(),
            "resolve-domain-v1".to_owned(),
            "flow-control-v1".to_owned(),
        ],
        &supported,
    )
    .unwrap();
    assert_eq!(enabled, vec!["tcp-connect-v1".to_owned(), "flow-control-v1".to_owned()]);
    assert!(matches!(
        negotiate_capabilities(&["required:resolve-domain-v1".to_owned()], &supported),
        Err(ProtocolError::IncompatibleVersion)
    ));
    assert!(matches!(
        negotiate_capabilities(
            &["tcp-connect-v1".to_owned(), "required:tcp-connect-v1".to_owned()],
            &supported
        ),
        Err(ProtocolError::InvalidField("duplicate_capability"))
    ));
    assert!(verify_enabled_capabilities(
        &["required:tcp-connect-v1".to_owned()],
        &["tcp-connect-v1".to_owned()]
    )
    .is_ok());
    assert!(matches!(
        verify_enabled_capabilities(&["tcp-connect-v1".to_owned()], &["flow-control-v1".to_owned()]),
        Err(ProtocolError::ProtocolViolation(_))
    ));
    assert!(matches!(
        verify_enabled_capabilities(&["required:tcp-connect-v1".to_owned()], &[]),
        Err(ProtocolError::IncompatibleVersion)
    ));
}

#[test]
fn other_major_versions_are_incompatible() {
    assert!(matches!(
        select_version(&version_range(2, 0, 0), &version_range(1, 0, 0)),
        Err(ProtocolError::IncompatibleVersion)
    ));
    assert!(matches!(
        select_version(&version_range(1, 4, 5), &version_range(1, 0, 3)),
        Err(ProtocolError::IncompatibleVersion)
    ));
}

#[test]
fn hostnames_and_stream_ids_are_validated() {
    assert!(validate_hostname("example.com").is_ok());
    assert!(validate_hostname("example.com.").is_err());
    assert!(validate_hostname("-bad.example").is_err());
    assert!(validate_hostname("").is_err());
    assert!(validate_stream_id(1).is_ok());
    assert!(matches!(validate_stream_id(2), Err(ProtocolError::InvalidStreamId)));
    assert!(matches!(validate_stream_id(0), Err(ProtocolError::InvalidStreamId)));
}

#[test]
fn binding_depends_on_every_input() {
    let v = version(1, 0);
    let a = session_nonce_binding(&[1; 32], &[2; 32], &[3; 16], &v).unwrap();
    let b = session_nonce_binding(&[1; 32], &[2; 32], &[4; 16], &v).unwrap();
    assert_ne!(a, b);
    assert_ne!(a, [0u8; 32]);
    assert!(matches!(
        session_nonce_binding(&[1; 31], &[2; 32], &[3; 16], &v),
        Err(ProtocolError::InvalidField("client_nonce"))
    ));
    assert!(matches!(
        session_nonce_binding(&[1; 32], &[2; 32], &[3; 16], &version(0, 1)),
        Err(ProtocolError::InvalidField("selected_version"))
    ));
}

#[test]
fn inbound_protocol_error_permanently_closes_session() {
    let mut session = Session::new_client((), ProtocolLimits::default(), version(1, 0)).unwrap();
    let invalid_for_phase = GatewayFrame {
        sequence: 1,
        version: Some(version(1, 0)),
        critical_extension_ids: Vec::new(),
        session_id: Vec::new(),
        body: Some(Body::Ping(Ping { nonce: vec![0; 8] })),
    };
    assert!(matches!(
        session.receive_frame(invalid_for_phase.clone(), 0),
        Err(ProtocolError::InvalidSession)
    ));
    assert_eq!(session.phase(), SessionPhase::Closed);
    assert!(matches!(
        session.receive_frame(invalid_for_phase, 0),
        Err(ProtocolError::Closed)
    ));
}

fn transfer<A, B>(from: &mut Session<A>, to: &mut Session<B>, now_ms: u64) -> Vec<Body> {
    let mut bodies = Vec::new();
    while let Some(frame) = from.next_outbound_frame().unwrap() {
        bodies.push(to.receive_frame(frame, now_ms).unwrap());
    }
    bodies
}

#[test]
fn client_server_handshake_open_and_data_conform() {
    let server = start_server((), ServerConfig::default()).unwrap();
    let mut client = start_client_with_nonce((), ClientConfig::default(), [7; 32]).unwrap();
    let mut server_session = server.session;
    let hello = transfer(&mut client.session, &mut server_session, 0).remove(0);
    let server = onionroute_gateway::gateway::server::ServerAwaitingClientHello {
        session: server_session,
        config: ServerConfig::default(),
    };
    let mut awaiting_auth = match server.on_client_hello(hello) {
        ServerHelloOutcome::Reply(state) => state,
        _ => panic!("expected a server hello"),
    };
    let reply = transfer(&mut awaiting_auth.session, &mut client.session, 0).remove(0);
    let awaiting_material = match client.on_server_hello(reply) {
        Ok(state) => state,
        Err(e) => panic!("client rejected the server hello: {e:?}"),
    };
    let mut awaiting_result = match awaiting_material.on_material(AuthenticationMaterial {
        anonymous_capability_token: b"anonymous-test-token".to_vec(),
        proof_of_possession: Vec::new(),
    }) {
        Ok(state) => state,
        Err(e) => panic!("material refused: {e:?}"),
    };
    let authenticate = transfer(&mut awaiting_result.session, &mut awaiting_auth.session, 0).remove(0);
    let awaiting_decision = match awaiting_auth.on_authenticate(authenticate) {
        ServerAuthOutcome::Verify(state, token, _, _) => {
            assert_eq!(token, b"anonymous-test-token".to_vec());
            state
        }
        _ => panic!("binding should verify"),
    };
    let mut server_reference = match awaiting_decision.on_decision(AuthenticationDecision {
        accepted: true,
        expires_at_unix_seconds: 4_102_444_800,
        granted_capabilities: vec![FLOW_CONTROL_V1.to_owned(), TCP_CONNECT_V1.to_owned()],
    }) {
        ServerDecisionOutcome::Accept(reference) => reference,
        _ => panic!("expected acceptance"),
    };
    let result = transfer(server_reference.session_mut(), &mut awaiting_result.session, 0).remove(0);
    let mut client_reference = match awaiting_result.on_authentication_result(result) {
        Ok(reference) => reference,
        Err(e) => panic!("client should activate: {e:?}"),
    };
    assert_eq!(client_reference.session().phase(), SessionPhase::Active);
    assert_eq!(server_reference.session().phase(), SessionPhase::Active);

    assert!(matches!(
        client_reference.resolve(ResolveDomain {
            query_id: 1,
            hostname: "example.com".to_owned(),
            address_family: AddressFamily::Any,
            timeout_ms: 10_000,
        }),
        Err(ProtocolError::ProtocolViolation(_))
    ));
    client_reference
        .open_tcp(
            OpenTcpStream {
                stream_id: 1,
                destination: Some(Destination {
                    value: Some(DestinationValue::Hostname("example.com".to_owned())),
                }),
                destination_port: 443,
                timeout_ms: 10_000,
                policy_flags: 0,
                initial_receive_window: 4096,
            },
            0,
        )
        .unwrap();
    let request = transfer(client_reference.session_mut(), server_reference.session_mut(), 0).remove(0);
    let stream_id = match request {
        Body::OpenTcpStream(request) => request.stream_id,
        _ => panic!("expected open"),
    };
    server_reference.accept_tcp(stream_id, 4096, 0).unwrap();
    match transfer(server_reference.session_mut(), client_reference.session_mut(), 0).remove(0) {
        Body::TcpStreamOpened(opened) if opened.stream_id == 1 => {}
        _ => panic!("expected opened"),
    }
    assert_eq!(client_reference.session_mut().try_queue_data(1, b"hello", 0).unwrap(), 5);
    match transfer(client_reference.session_mut(), server_reference.session_mut(), 0).remove(0) {
        Body::Data(data) if data.payload == b"hello" => {}
        _ => panic!("expected data"),
    }

    server_reference.session_mut().begin_go_away(graceful_go_away(1, 1000)).unwrap();
    assert_eq!(server_reference.session().phase(), SessionPhase::Draining);
    assert!(matches!(
        server_reference.accept_tcp(3, 4096, 0),
        Err(ProtocolError::Closed)
    ));
    client_reference.session_mut().begin_go_away(graceful_go_away(0, 1000)).unwrap();
    assert_eq!(client_reference.session().phase(), SessionPhase::Draining);
    assert!(matches!(
        client_reference.open_tcp(
            OpenTcpStream {
                stream_id: 3,
                destination: Some(Destination {
                    value: Some(DestinationValue::Hostname("example.com".to_owned())),
                }),
                destination_port: 443,
                timeout_ms: 10_000,
                policy_flags: 0,
                initial_receive_window: 4096,
            },
            0,
        ),
        Err(ProtocolError::Closed)
    ));
    assert!(matches!(
        server_reference.session_mut().reject_tcp(
            onionroute_gateway::gateway::wire::TcpStreamRejected {
                stream_id: 3,
                error_code: ErrorCode::Unspecified,
                retry_hint: onionroute_gateway::gateway::wire::RetryHint::Never,
            }
        ),
        Err(ProtocolError::Closed)
    ));
    assert!(matches!(
        client_reference.session_mut().resolve(ResolveDomain {
            query_id: 2,
            hostname: "example.com".to_owned(),
            address_family: AddressFamily::Any,
            timeout_ms: 10_000,
        }),
        Err(ProtocolError::Closed)
    ));
    assert!(matches!(
        server_reference.session_mut().resolve_result(
            onionroute_gateway::gateway::wire::ResolveResult {
                query_id: 2,
                ip_addresses: Vec::new(),
                error_code: ErrorCode::Unspecified,
                minimum_ttl_seconds: 0,
            }
        ),
        Err(ProtocolError::Closed)
    ));
}

#[test]
fn incompatible_client_receives_explicit_error() {
    let client_config = ClientConfig {
        supported_versions: version_range(2, 0, 0),
        ..ClientConfig::default()
    };
    let server = start_server((), ServerConfig::default()).unwrap();
    let mut client = start_client_with_nonce((), client_config, [9; 32]).unwrap();
    let mut server_session = server.session;
    let hello = transfer(&mut client.session, &mut server_session, 0).remove(0);
    let server = onionroute_gateway::gateway::server::ServerAwaitingClientHello {
        session: server_session,
        config: ServerConfig::default(),
    };
    let mut refused = match server.on_client_hello(hello) {
        ServerHelloOutcome::Refuse(session, error) => {
            assert!(matches!(error, ProtocolError::IncompatibleVersion));
            session
        }
        _ => panic!("expected a refusal"),
    };
    let error = transfer(&mut refused, &mut client.session, 0).remove(0);
    match &error {
        Body::Error(e) => assert_eq!(e.code, ErrorCode::ProtocolIncompatible),
        _ => panic!("expected an error body"),
    }
    assert!(matches!(
        client.on_server_hello(error),
        Err(ProtocolError::IncompatibleVersion)
    ));
}

#[test]
fn data_is_split_at_the_payload_limit_and_windows_apply() {
    let payload = vec![0u8; 40_000];
    let mut client = start_client_with_nonce((), ClientConfig::default(), [1; 32]).unwrap();
    assert!(matches!(
        client.session.try_queue_data(1, &payload, 0),
        Err(ProtocolError::Closed)
    ));
    assert!(matches!(
        client.session.close_stream(1, CloseCode::Timeout),
        Err(ProtocolError::Closed)
    ));
}

#[test]
fn go_away_is_graceful() {
    let message = graceful_go_away(5, 1000);
    assert_eq!(message.last_accepted_stream_id, 5);
    assert_eq!(message.code, ErrorCode::Unspecified);
    assert_eq!(message.drain_timeout_ms, 1000);
}

#[test]
fn hello_validation_rejects_direct_tor_and_bad_country() {
    let mut config = ClientConfig::default();
    config.anonymity_mode = AnonymityMode::DirectTor;
    assert!(matches!(
        start_client_with_nonce((), config, [0; 32]),
        Err(ProtocolError::InvalidField("anonymity_mode"))
    ));
    let mut config = ClientConfig::default();
    config.desired_country = "usa".to_owned();
    assert!(matches!(
        start_client_with_nonce((), config, [0; 32]),
        Err(ProtocolError::InvalidField("desired_country"))
    ));
}

#[test]
fn refusal_carries_the_given_correlation_id() {
    let server = start_server((), ServerConfig::default()).unwrap();
    match server.refuse_with(ProtocolError::IncompatibleVersion, [7; 16]) {
        ServerHelloOutcome::Refuse(mut session, error) => {
            assert!(matches!(error, ProtocolError::IncompatibleVersion));
            let frame = session.next_outbound_frame().unwrap().unwrap();
            match frame.body {
                Some(Body::Error(e)) => {
                    assert_eq!(e.code, ErrorCode::ProtocolIncompatible);
                    assert_eq!(e.stream_id, 0);
                    assert!(e.fatal);
                    assert_eq!(e.correlation_id, vec![7; 16]);
                }
                _ => panic!("expected an error body"),
            }
        }
        _ => panic!("expected a refusal"),
    }
}
