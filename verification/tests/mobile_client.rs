use onionroute_gateway::mobile::{
    validate_options, ClientState, MobileClient, OrCreateOptions, OrEvent, ACTION_APPLY_KILL_SWITCH,
    ACTION_REFRESH_TOKEN, ACTION_START_PROTECTED_CORE, ACTION_STOP_PROTECTED_CORE,
    CREATE_OPTIONS_SIZE, DIAGNOSTIC_CAPTIVE_PORTAL, DIAGNOSTIC_NETWORK_UNAVAILABLE,
    DIAGNOSTIC_PACKET_CORE_UNAVAILABLE, DIAGNOSTIC_PROTECTED_PATH_UNHEALTHY, EVENT_ABI_NEGOTIATED,
    EVENT_DIAGNOSTIC, EVENT_OPERATION, EVENT_PLATFORM_ACTION, EVENT_QUEUE_OVERFLOW, EVENT_SIZE,
    EVENT_STATE_CHANGED, MAX_MEMORY_BUDGET, MAX_PACKET_BYTES, MIN_MEMORY_BUDGET,
    OR_STATUS_BACKPRESSURE, OR_STATUS_CANCELLED, OR_STATUS_INCOMPATIBLE_VERSION,
    OR_STATUS_INVALID_ARGUMENT, OR_STATUS_INVALID_STATE, OR_STATUS_OK, OR_STATUS_UNAVAILABLE,
};

fn options(capacity: u32) -> OrCreateOptions {
    OrCreateOptions {
        struct_size: std::mem::size_of::<OrCreateOptions>() as u32,
        abi_min_major: 1,
        abi_min_minor: 0,
        abi_max_major: 1,
        abi_max_minor: 0,
        event_capacity: capacity,
        memory_budget_bytes: MIN_MEMORY_BUDGET,
    }
}

fn create(capacity: u32) -> MobileClient {
    match MobileClient::create(options(capacity)) {
        Ok(client) => client,
        Err(status) => panic!("create failed with {status}"),
    }
}

fn drain(client: &mut MobileClient) -> Vec<OrEvent> {
    let mut events = Vec::new();
    while let Some(event) = client.poll_event() {
        events.push(event);
    }
    events
}

fn states(events: &[OrEvent]) -> Vec<u64> {
    events
        .iter()
        .filter(|event| event.kind == EVENT_STATE_CHANGED)
        .map(|event| event.value)
        .collect()
}

fn connected(capacity: u32) -> MobileClient {
    let mut client = create(capacity);
    assert!(client.connect().is_ok());
    assert_eq!(client.set_tunnel_ready(1), OR_STATUS_OK);
    assert_eq!(client.set_core_ready(1), OR_STATUS_OK);
    client
}

#[test]
fn version_negotiation_rejects_other_major() {
    let mut incompatible = options(8);
    incompatible.abi_min_major = 2;
    incompatible.abi_max_major = 2;
    assert_eq!(
        MobileClient::create(incompatible).err(),
        Some(OR_STATUS_INCOMPATIBLE_VERSION)
    );
}

#[test]
fn abi_struct_layout_matches_c_header_v1() {
    assert_eq!(std::mem::size_of::<OrCreateOptions>(), 24);
    assert_eq!(std::mem::align_of::<OrCreateOptions>(), 8);
    assert_eq!(std::mem::size_of::<OrEvent>(), 104);
    assert_eq!(std::mem::align_of::<OrEvent>(), 8);
    assert_eq!(CREATE_OPTIONS_SIZE as usize, std::mem::size_of::<OrCreateOptions>());
    assert_eq!(EVENT_SIZE as usize, std::mem::size_of::<OrEvent>());
}

#[test]
fn connect_waits_for_platform_then_core() {
    let mut client = create(16);
    let operation = client.connect().expect("connect from disconnected");
    assert_ne!(operation, 0);
    assert_eq!(client.set_tunnel_ready(1), OR_STATUS_OK);
    assert_eq!(client.set_core_ready(1), OR_STATUS_OK);
    let events = drain(&mut client);
    assert_eq!(
        states(&events),
        vec![
            ClientState::Preparing.number(),
            ClientState::ApplyingKillSwitch.number(),
            ClientState::BootstrappingTor.number(),
            ClientState::Connected.number()
        ]
    );
    client.shut_down();
}

#[test]
fn packet_path_is_bounded_and_fails_closed_until_adapter_exists() {
    let mut client = create(8);
    let packet = [0x45u8; 20];
    assert_eq!(client.submit_packet(&packet), OR_STATUS_UNAVAILABLE);
    let oversized = vec![0x45u8; MAX_PACKET_BYTES + 1];
    assert_eq!(client.submit_packet(&oversized), OR_STATUS_INVALID_ARGUMENT);
    client.shut_down();
}

#[test]
fn event_queue_stays_bounded_and_reports_overflow() {
    let mut client = create(8);
    for _ in 0..32 {
        let operation = client.request_token_refresh();
        assert_ne!(operation, 0);
    }
    let events = drain(&mut client);
    assert!(events.len() <= 8);
    assert!(events.iter().any(|event| event.kind == EVENT_QUEUE_OVERFLOW));
    client.shut_down();
}

#[test]
fn cancellation_is_explicit() {
    let mut client = create(8);
    let operation = client.request_config_refresh();
    assert_eq!(client.cancel(operation), OR_STATUS_OK);
    assert_eq!(client.cancel(operation), OR_STATUS_INVALID_ARGUMENT);
    client.shut_down();
}

#[test]
fn handoff_never_returns_to_connected_without_new_health_proof() {
    let mut client = connected(32);
    assert_eq!(client.set_network(0, 0, 0, 0), OR_STATUS_OK);
    assert_eq!(client.set_network(1, 1, 0, 0), OR_STATUS_OK);
    let states = states(&drain(&mut client));
    assert!(states.ends_with(&[
        ClientState::Connected.number(),
        ClientState::Reconnecting.number(),
        ClientState::BootstrappingTor.number(),
    ]));
    client.shut_down();
}

#[test]
fn unhealthy_resume_forces_reconnect() {
    let mut client = connected(16);
    assert_eq!(client.suspend(1_000), OR_STATUS_OK);
    assert_eq!(client.resume(5_000, 0), OR_STATUS_OK);
    let states = states(&drain(&mut client));
    assert_eq!(states.last().copied(), Some(ClientState::Reconnecting.number()));
    client.shut_down();
}

#[test]
fn options_are_checked_in_order() {
    let mut wrong_size = options(8);
    wrong_size.struct_size = 20;
    wrong_size.abi_min_major = 2;
    assert_eq!(validate_options(wrong_size), Err(OR_STATUS_INVALID_ARGUMENT));

    let mut newer_minor = options(8);
    newer_minor.abi_min_minor = 1;
    newer_minor.abi_max_minor = 1;
    assert_eq!(validate_options(newer_minor), Err(OR_STATUS_INCOMPATIBLE_VERSION));

    assert_eq!(validate_options(options(7)), Err(OR_STATUS_INVALID_ARGUMENT));
    assert_eq!(validate_options(options(4097)), Err(OR_STATUS_INVALID_ARGUMENT));
    assert_eq!(validate_options(options(4096)), Ok(4096));

    let mut small_budget = options(8);
    small_budget.memory_budget_bytes = MIN_MEMORY_BUDGET - 1;
    assert_eq!(validate_options(small_budget), Err(OR_STATUS_INVALID_ARGUMENT));
    let mut large_budget = options(8);
    large_budget.memory_budget_bytes = MAX_MEMORY_BUDGET + 1;
    assert_eq!(validate_options(large_budget), Err(OR_STATUS_INVALID_ARGUMENT));
}

#[test]
fn creation_announces_the_abi_version() {
    let mut client = create(8);
    let event = client.poll_event().expect("negotiated event");
    assert_eq!(event.kind, EVENT_ABI_NEGOTIATED);
    assert_eq!(event.sequence, 1);
    assert_eq!(event.value, 1u64 << 32);
    assert_eq!(event.struct_size, EVENT_SIZE);
    assert_eq!(event.data_len, 0);
    assert!(client.poll_event().is_none());
}

#[test]
fn connect_asks_for_the_kill_switch_and_numbers_events() {
    let mut client = create(16);
    let operation = client.connect().unwrap();
    assert_eq!(operation, 1);
    let events = drain(&mut client);
    let sequences: Vec<u64> = events.iter().map(|event| event.sequence).collect();
    assert_eq!(sequences, vec![1, 2, 3, 4]);
    let action = &events[3];
    assert_eq!(action.kind, EVENT_PLATFORM_ACTION);
    assert_eq!(action.value, ACTION_APPLY_KILL_SWITCH);
    assert_eq!(action.operation_id, operation);
    assert_eq!(client.connect(), Err(OR_STATUS_INVALID_STATE));
}

#[test]
fn tunnel_refusal_blocks_and_finishes_the_operation() {
    let mut client = create(16);
    let operation = client.connect().unwrap();
    assert_eq!(client.set_tunnel_ready(2), OR_STATUS_INVALID_ARGUMENT);
    assert_eq!(client.set_tunnel_ready(0), OR_STATUS_UNAVAILABLE);
    let events = drain(&mut client);
    let last = events.last().unwrap();
    assert_eq!(last.kind, EVENT_OPERATION);
    assert_eq!(last.operation_id, operation);
    assert_eq!(last.code, OR_STATUS_UNAVAILABLE);
    assert_eq!(states(&events).last().copied(), Some(ClientState::Blocked.number()));
    assert_eq!(client.cancel(operation), OR_STATUS_INVALID_ARGUMENT);
    assert!(client.connect().is_ok());
}

#[test]
fn core_answers_are_only_taken_while_awaited() {
    let mut client = create(16);
    assert_eq!(client.set_core_ready(1), OR_STATUS_INVALID_STATE);
    client.connect().unwrap();
    assert_eq!(client.set_core_ready(1), OR_STATUS_INVALID_STATE);
    assert_eq!(client.set_tunnel_ready(1), OR_STATUS_OK);
    assert_eq!(client.set_core_ready(2), OR_STATUS_INVALID_ARGUMENT);
    assert_eq!(client.set_core_ready(0), OR_STATUS_UNAVAILABLE);
    let events = drain(&mut client);
    assert_eq!(states(&events).last().copied(), Some(ClientState::Blocked.number()));
    let start = events
        .iter()
        .find(|event| event.kind == EVENT_PLATFORM_ACTION && event.value == ACTION_START_PROTECTED_CORE);
    assert!(start.is_some());
}

#[test]
fn disconnect_stops_the_core_then_finishes() {
    let mut client = create(16);
    assert_eq!(client.disconnect(), Err(OR_STATUS_INVALID_STATE));
    client.connect().unwrap();
    drain(&mut client);
    let operation = client.disconnect().unwrap();
    let events = drain(&mut client);
    let kinds: Vec<u32> = events.iter().map(|event| event.kind).collect();
    assert_eq!(
        kinds,
        vec![EVENT_STATE_CHANGED, EVENT_PLATFORM_ACTION, EVENT_STATE_CHANGED, EVENT_OPERATION]
    );
    assert_eq!(events[1].value, ACTION_STOP_PROTECTED_CORE);
    assert_eq!(events[2].value, ClientState::Disconnected.number());
    assert_eq!(events[3].operation_id, operation);
    assert_eq!(events[3].code, OR_STATUS_OK);
}

#[test]
fn rotation_needs_a_connection_and_reports_its_kind() {
    let mut client = create(16);
    assert_eq!(client.rotate(2), Err(OR_STATUS_INVALID_ARGUMENT));
    assert_eq!(client.rotate(1), Err(OR_STATUS_INVALID_STATE));
    let mut client = connected(16);
    drain(&mut client);
    let operation = client.rotate(1).unwrap();
    let events = drain(&mut client);
    assert_eq!(events[0].value, ClientState::Rotating.number());
    assert_eq!(events[1].kind, EVENT_PLATFORM_ACTION);
    assert_eq!(events[1].operation_id, operation);
    assert_eq!(events[1].data_len, 1);
    assert_eq!(events[1].data[0], 1);
    assert_eq!(client.set_core_ready(1), OR_STATUS_OK);
}

#[test]
fn network_flags_and_captive_portal_are_reported() {
    let mut client = connected(32);
    drain(&mut client);
    assert_eq!(client.set_network(2, 0, 0, 0), OR_STATUS_INVALID_ARGUMENT);
    assert_eq!(client.set_network(1, 1, 1, 1), OR_STATUS_OK);
    let events = drain(&mut client);
    assert_eq!(events[0].kind, EVENT_DIAGNOSTIC);
    assert_eq!(events[0].code, DIAGNOSTIC_CAPTIVE_PORTAL);
    assert_eq!(events[0].value, 7);
    assert_eq!(events[1].value, ClientState::Reconnecting.number());

    let mut idle = create(8);
    drain(&mut idle);
    assert_eq!(idle.set_network(0, 0, 1, 0), OR_STATUS_OK);
    let events = drain(&mut idle);
    assert_eq!(events.len(), 1);
    assert_eq!(events[0].code, DIAGNOSTIC_NETWORK_UNAVAILABLE);
    assert_eq!(events[0].value, 2);
}

#[test]
fn country_and_mode_are_checked() {
    let mut client = create(8);
    assert_eq!(client.set_country(*b"DE"), OR_STATUS_OK);
    assert_eq!(client.set_country(*b"de"), OR_STATUS_INVALID_ARGUMENT);
    assert_eq!(client.set_country(*b"D1"), OR_STATUS_INVALID_ARGUMENT);
    assert_eq!(client.set_anonymity_mode(3), OR_STATUS_OK);
    assert_eq!(client.set_anonymity_mode(4), OR_STATUS_INVALID_ARGUMENT);
}

#[test]
fn resume_needs_a_suspension_and_a_forward_clock() {
    let mut client = connected(16);
    drain(&mut client);
    assert_eq!(client.resume(10, 2), OR_STATUS_INVALID_ARGUMENT);
    assert_eq!(client.resume(10, 1), OR_STATUS_INVALID_STATE);
    assert_eq!(client.suspend(500), OR_STATUS_OK);
    assert_eq!(client.resume(100, 0), OR_STATUS_INVALID_ARGUMENT);
    assert_eq!(client.resume(600, 0), OR_STATUS_INVALID_STATE);
    assert_eq!(client.suspend(500), OR_STATUS_OK);
    assert_eq!(client.resume(800, 1), OR_STATUS_OK);
    assert!(client.poll_event().is_none());
    assert_eq!(client.suspend(1_000), OR_STATUS_OK);
    assert_eq!(client.resume(1_250, 0), OR_STATUS_OK);
    let events = drain(&mut client);
    assert_eq!(events[0].code, DIAGNOSTIC_PROTECTED_PATH_UNHEALTHY);
    assert_eq!(events[0].value, 250);
}

#[test]
fn packet_refusal_is_reported_once() {
    let mut client = create(8);
    drain(&mut client);
    assert_eq!(client.submit_packet(&[]), OR_STATUS_INVALID_ARGUMENT);
    assert_eq!(client.submit_packet(&[0x45u8; 40]), OR_STATUS_UNAVAILABLE);
    assert_eq!(client.submit_packet(&[0x60u8; 40]), OR_STATUS_UNAVAILABLE);
    let events = drain(&mut client);
    assert_eq!(events.len(), 1);
    assert_eq!(events[0].code, DIAGNOSTIC_PACKET_CORE_UNAVAILABLE);
}

#[test]
fn overflow_event_precedes_the_newest_event() {
    let mut client = create(8);
    for _ in 0..7 {
        client.request_token_refresh();
    }
    let events = drain(&mut client);
    assert_eq!(events.len(), 8);
    assert_eq!(events[6].kind, EVENT_QUEUE_OVERFLOW);
    assert_eq!(events[6].code, OR_STATUS_BACKPRESSURE);
    assert_eq!(events[7].value, ACTION_REFRESH_TOKEN);
    assert_eq!(events[7].sequence, events[6].sequence + 1);
}

#[test]
fn cancellation_reports_the_cancelled_operation() {
    let mut client = create(8);
    assert_eq!(client.cancel(0), OR_STATUS_INVALID_ARGUMENT);
    assert_eq!(client.cancel(99), OR_STATUS_INVALID_ARGUMENT);
    let operation = client.request_token_refresh();
    drain(&mut client);
    assert_eq!(client.cancel(operation), OR_STATUS_OK);
    let event = client.poll_event().unwrap();
    assert_eq!(event.kind, EVENT_OPERATION);
    assert_eq!(event.code, OR_STATUS_CANCELLED);
    assert_eq!(event.operation_id, operation);
}

#[test]
fn shut_down_drops_events_and_disconnects() {
    let mut client = connected(16);
    client.shut_down();
    assert!(client.poll_event().is_none());
    assert!(client.connect().is_ok());
}
