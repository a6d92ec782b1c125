//! The mobile client's state machine behind the C ABI: option checks, the
//! fail-closed connection lifecycle driven by platform confirmations, the
//! bounded event queue with its overflow report, and explicit cancellation.
//! Handles, locking and the raw-pointer boundary belong to the embedding layer;
//! each method here is the body of one ABI call on an already resolved client.
use vstd::prelude::*;

verus! {

pub const OR_STATUS_OK: i32 = 0;
pub const OR_STATUS_EMPTY: i32 = 1;
pub const OR_STATUS_INVALID_ARGUMENT: i32 = -1;
pub const OR_STATUS_INVALID_HANDLE: i32 = -2;
pub const OR_STATUS_INCOMPATIBLE_VERSION: i32 = -3;
pub const OR_STATUS_SHUTTING_DOWN: i32 = -4;
pub const OR_STATUS_INVALID_STATE: i32 = -5;
pub const OR_STATUS_BACKPRESSURE: i32 = -6;
pub const OR_STATUS_CANCELLED: i32 = -7;
pub const OR_STATUS_UNAVAILABLE: i32 = -8;
pub const OR_STATUS_PANIC: i32 = -127;

pub const ABI_MAJOR: u16 = 1;
pub const ABI_MINOR: u16 = 0;
pub const MIN_EVENT_CAPACITY: usize = 8;
pub const MAX_EVENT_CAPACITY: usize = 4096;
pub const MIN_MEMORY_BUDGET: u64 = 4 * 1024 * 1024;
pub const MAX_MEMORY_BUDGET: u64 = 256 * 1024 * 1024;
pub const MAX_PACKET_BYTES: usize = 128 * 1024;
/// Bytes of inline payload an event carries.
pub const EVENT_DATA_BYTES: usize = 64;
/// Size of `OrCreateOptions` in the C header's layout.
pub const CREATE_OPTIONS_SIZE: u32 = 24;
/// Size of `OrEvent` in the C header's layout.
pub const EVENT_SIZE: u32 = 104;

pub const EVENT_ABI_NEGOTIATED: u32 = 1;
pub const EVENT_STATE_CHANGED: u32 = 2;
pub const EVENT_PLATFORM_ACTION: u32 = 3;
pub const EVENT_OPERATION: u32 = 4;
pub const EVENT_DIAGNOSTIC: u32 = 5;
pub const EVENT_QUEUE_OVERFLOW: u32 = 6;

pub const ACTION_APPLY_KILL_SWITCH: u64 = 1;
pub const ACTION_START_PROTECTED_CORE: u64 = 2;
pub const ACTION_STOP_PROTECTED_CORE: u64 = 3;
pub const ACTION_REFRESH_TOKEN: u64 = 4;
pub const ACTION_REFRESH_SIGNED_CONFIG: u64 = 5;

pub const DIAGNOSTIC_NETWORK_UNAVAILABLE: i32 = 1001;
pub const DIAGNOSTIC_CAPTIVE_PORTAL: i32 = 1002;
pub const DIAGNOSTIC_PACKET_CORE_UNAVAILABLE: i32 = 1003;
pub const DIAGNOSTIC_PROTECTED_PATH_UNHEALTHY: i32 = 1004;

/// What the platform asks for when it creates a client.
#[derive(Clone, Copy, Debug)]
pub struct OrCreateOptions {
    pub struct_size: u32,
    pub abi_min_major: u16,
    pub abi_min_minor: u16,
    pub abi_max_major: u16,
    pub abi_max_minor: u16,
    pub event_capacity: u32,
    pub memory_budget_bytes: u64,
}

/// One event as the platform reads it.
#[derive(Clone, Copy, Debug)]
pub struct OrEvent {
    pub struct_size: u32,
    pub kind: u32,
    pub sequence: u64,
    pub operation_id: u64,
    pub code: i32,
    pub data_len: u32,
    pub value: u64,
    pub data: [u8; 64],
}

/// What an event says, with the payload cut to its length.
pub struct EventView {
    pub struct_size: u32,
    pub kind: u32,
    pub sequence: u64,
    pub operation_id: u64,
    pub code: i32,
    pub value: u64,
    pub data: Seq<u8>,
}

impl View for OrEvent {
    type V = EventView;

    open spec fn view(&self) -> EventView {
        EventView {
            struct_size: self.struct_size,
            kind: self.kind,
            sequence: self.sequence,
            operation_id: self.operation_id,
            code: self.code,
            value: self.value,
            data: self.data@.take(self.data_len as int),
        }
    }
}

impl OrEvent {
    /// The layout fields agree with the C header and the payload past its
    /// length is zero.
    pub open spec fn well_formed(&self) -> bool {
        &&& self.struct_size == EVENT_SIZE
        &&& self.data_len <= EVENT_DATA_BYTES
        &&& forall|i: int| self.data_len <= i < EVENT_DATA_BYTES ==> self.data@[i] == 0
    }
}

impl Default for OrEvent {
    fn default() -> (event: Self)
        ensures
            event.well_formed(),
            event.kind == 0,
            event.sequence == 0,
            event.operation_id == 0,
            event.code == 0,
            event.data_len == 0,
            event.value == 0,
    {
        OrEvent {
            struct_size: EVENT_SIZE,
            kind: 0,
            sequence: 0,
            operation_id: 0,
            code: 0,
            data_len: 0,
            value: 0,
            data: [0u8; 64],
        }
    }
}

/// The payload an event keeps of `data`: at most its first 64 bytes.
pub open spec fn event_payload(data: Seq<u8>) -> Seq<u8> {
    if data.len() <= EVENT_DATA_BYTES {
        data
    } else {
        data.take(EVENT_DATA_BYTES as int)
    }
}

/// The result of checking creation options: the event capacity, or the status
/// the creation call answers with.
pub open spec fn options_check(options: OrCreateOptions) -> Result<usize, i32> {
    if options.struct_size != CREATE_OPTIONS_SIZE {
        Err(OR_STATUS_INVALID_ARGUMENT)
    } else if options.abi_min_major != ABI_MAJOR || options.abi_max_major != ABI_MAJOR
        || options.abi_min_minor != ABI_MINOR || options.abi_min_minor > options.abi_max_minor {
        Err(OR_STATUS_INCOMPATIBLE_VERSION)
    } else if !(MIN_EVENT_CAPACITY <= options.event_capacity <= MAX_EVENT_CAPACITY)
        || !(MIN_MEMORY_BUDGET <= options.memory_budget_bytes <= MAX_MEMORY_BUDGET) {
        Err(OR_STATUS_INVALID_ARGUMENT)
    } else {
        Ok(options.event_capacity as usize)
    }
}

/// Checks the options of a creation call: the structure size first, then the
/// ABI version range, then the event capacity and memory budget bounds.
pub fn validate_options(options: OrCreateOptions) -> (result: Result<usize, i32>)
    ensures
        result == options_check(options),
{
    if options.struct_size != CREATE_OPTIONS_SIZE {
        return Err(OR_STATUS_INVALID_ARGUMENT);
    }
    if options.abi_min_major != ABI_MAJOR || options.abi_max_major != ABI_MAJOR
        || options.abi_min_minor != ABI_MINOR || options.abi_min_minor > options.abi_max_minor {
        return Err(OR_STATUS_INCOMPATIBLE_VERSION);
    }
    let event_capacity = options.event_capacity as usize;
    if event_capacity < MIN_EVENT_CAPACITY || event_capacity > MAX_EVENT_CAPACITY
        || options.memory_budget_bytes < MIN_MEMORY_BUDGET
        || options.memory_budget_bytes > MAX_MEMORY_BUDGET {
        return Err(OR_STATUS_INVALID_ARGUMENT);
    }
    Ok(event_capacity)
}

/// The client's lifecycle. Only a platform confirmation of the protected core
/// leads to `Connected`.
#[derive(Clone, Copy, Debug, PartialEq, Eq, Structural)]
pub enum ClientState {
    Disconnected,
    Preparing,
    ApplyingKillSwitch,
    BootstrappingTor,
    Connected,
    Rotating,
    Reconnecting,
    Blocked,
    Disconnecting,
}

/// The number a state is reported by in state-change events.
pub open spec fn state_number(state: ClientState) -> u64 {
    match state {
        ClientState::Disconnected => 0,
        ClientState::Preparing => 1,
        ClientState::ApplyingKillSwitch => 2,
        ClientState::BootstrappingTor => 3,
        ClientState::Connected => 4,
        ClientState::Rotating => 5,
        ClientState::Reconnecting => 6,
        ClientState::Blocked => 7,
        ClientState::Disconnecting => 8,
    }
}

impl ClientState {
    pub fn number(self) -> (n: u64)
        ensures
            n == state_number(self),
    {
        match self {
            ClientState::Disconnected => 0,
            ClientState::Preparing => 1,
            ClientState::ApplyingKillSwitch => 2,
            ClientState::BootstrappingTor => 3,
            ClientState::Connected => 4,
            ClientState::Rotating => 5,
            ClientState::Reconnecting => 6,
            ClientState::Blocked => 7,
            ClientState::Disconnecting => 8,
        }
    }
}

/// Sequence numbers and operation ids count up, skip zero on wrap-around, and
/// are never zero.
pub open spec fn next_nonzero(x: u64) -> u64 {
    if x == u64::MAX {
        1
    } else {
        (x + 1) as u64
    }
}

/// The abstract client: what the ABI calls read and change.
pub struct ClientModel {
    pub state: ClientState,
    pub events: Seq<EventView>,
    pub capacity: nat,
    pub next_sequence: u64,
    pub next_operation: u64,
    pub active: Set<u64>,
    pub country: Option<(u8, u8)>,
    pub anonymity_mode: u32,
    pub suspended_at_ms: Option<u64>,
    pub packet_unavailable_reported: bool,
}

/// Queues one event. When fewer than two slots are free, the oldest events
/// are dropped down to `capacity - 2` and an overflow event goes in first, so
/// the queue never holds more than `capacity` events and a loss is always
/// reported.
pub open spec fn emit(
    m: ClientModel,
    kind: u32,
    operation_id: u64,
    code: i32,
    value: u64,
    data: Seq<u8>,
) -> ClientModel {
    if m.events.len() + 2 > m.capacity {
        let kept = m.events.skip(m.events.len() - m.capacity + 2);
        let overflow = EventView {
            struct_size: EVENT_SIZE,
            kind: EVENT_QUEUE_OVERFLOW,
            sequence: m.next_sequence,
            operation_id: 0,
            code: OR_STATUS_BACKPRESSURE,
            value: 0,
            data: Seq::empty(),
        };
        let event = EventView {
            struct_size: EVENT_SIZE,
            kind,
            sequence: next_nonzero(m.next_sequence),
            operation_id,
            code,
            value,
            data: event_payload(data),
        };
        ClientModel {
            events: kept.push(overflow).push(event),
            next_sequence: next_nonzero(next_nonzero(m.next_sequence)),
            ..m
        }
    } else {
        let event = EventView {
            struct_size: EVENT_SIZE,
            kind,
            sequence: m.next_sequence,
            operation_id,
            code,
            value,
            data: event_payload(data),
        };
        ClientModel { events: m.events.push(event), next_sequence: next_nonzero(m.next_sequence), ..m }
    }
}

/// A new operation takes the next id and becomes active.
pub open spec fn start_operation(m: ClientModel) -> ClientModel {
    ClientModel {
        next_operation: next_nonzero(m.next_operation),
        active: m.active.insert(m.next_operation),
        ..m
    }
}

/// Moves to `state` and reports it.
pub open spec fn enter_state(m: ClientModel, state: ClientState, operation_id: u64) -> ClientModel {
    emit(
        ClientModel { state, ..m },
        EVENT_STATE_CHANGED,
        operation_id,
        OR_STATUS_OK,
        state_number(state),
        Seq::empty(),
    )
}

/// Ends an operation and reports how it ended.
pub open spec fn finish_operation(m: ClientModel, operation_id: u64, code: i32) -> ClientModel {
    emit(
        ClientModel { active: m.active.remove(operation_id), ..m },
        EVENT_OPERATION,
        operation_id,
        code,
        0,
        Seq::empty(),
    )
}

/// Asks the platform to act.
pub open spec fn platform_action(m: ClientModel, operation_id: u64, action: u64, data: Seq<u8>) -> ClientModel {
    emit(m, EVENT_PLATFORM_ACTION, operation_id, OR_STATUS_OK, action, data)
}

pub open spec fn is_lowest(s: Set<u64>, x: u64) -> bool {
    s.contains(x) && forall|y: u64| s.contains(y) ==> x <= y
}

/// The oldest-numbered active operation, which platform confirmations are
/// credited to; zero when none is active.
pub open spec fn lowest_active(s: Set<u64>) -> u64 {
    if exists|x: u64| is_lowest(s, x) {
        choose|x: u64| is_lowest(s, x)
    } else {
        0
    }
}

/// The value of the version-negotiated event: the major version in the high
/// 32 bits, the minor in the low.
pub open spec fn abi_version_value() -> u64 {
    (ABI_MAJOR as u64 * 0x1_0000_0000 + ABI_MINOR as u64) as u64
}

/// A freshly created client, before its first event.
pub open spec fn fresh_model(capacity: nat) -> ClientModel {
    ClientModel {
        state: ClientState::Disconnected,
        events: Seq::empty(),
        capacity,
        next_sequence: 1,
        next_operation: 1,
        active: Set::empty(),
        country: None,
        anonymity_mode: 0,
        suspended_at_ms: None,
        packet_unavailable_reported: false,
    }
}

/// A created client has announced the negotiated version.
pub open spec fn created_model(capacity: nat) -> ClientModel {
    emit(fresh_model(capacity), EVENT_ABI_NEGOTIATED, 0, OR_STATUS_OK, abi_version_value(), Seq::empty())
}

/// Connecting starts an operation, goes through preparation to applying the
/// kill switch, and asks the platform to apply it.
pub open spec fn connect_model(m: ClientModel) -> ClientModel {
    let op = m.next_operation;
    let m1 = enter_state(start_operation(m), ClientState::Preparing, op);
    let m2 = enter_state(m1, ClientState::ApplyingKillSwitch, op);
    platform_action(m2, op, ACTION_APPLY_KILL_SWITCH, Seq::empty())
}

/// Disconnecting stops the protected core and finishes at once.
pub open spec fn disconnect_model(m: ClientModel) -> ClientModel {
    let op = m.next_operation;
    let m1 = enter_state(start_operation(m), ClientState::Disconnecting, op);
    let m2 = platform_action(m1, op, ACTION_STOP_PROTECTED_CORE, Seq::empty());
    let m3 = enter_state(m2, ClientState::Disconnected, op);
    finish_operation(m3, op, OR_STATUS_OK)
}

/// The platform's answer on the kill switch, while it is being applied.
pub open spec fn tunnel_ready_model(m: ClientModel, ready: u8) -> (ClientModel, i32) {
    let op = lowest_active(m.active);
    if m.state != ClientState::ApplyingKillSwitch {
        (m, OR_STATUS_INVALID_STATE)
    } else if ready == 1 {
        (
            platform_action(
                enter_state(m, ClientState::BootstrappingTor, op),
                op,
                ACTION_START_PROTECTED_CORE,
                Seq::empty(),
            ),
            OR_STATUS_OK,
        )
    } else if ready == 0 {
        (finish_operation(enter_state(m, ClientState::Blocked, op), op, OR_STATUS_UNAVAILABLE), OR_STATUS_UNAVAILABLE)
    } else {
        (m, OR_STATUS_INVALID_ARGUMENT)
    }
}

/// States in which the platform reports on the protected core.
pub open spec fn awaits_core(state: ClientState) -> bool {
    state == ClientState::BootstrappingTor || state == ClientState::Rotating || state == ClientState::Reconnecting
}

/// The platform's health proof of the protected core: the only way to
/// `Connected`.
pub open spec fn core_ready_model(m: ClientModel, ready: u8) -> (ClientModel, i32) {
    let op = lowest_active(m.active);
    if !awaits_core(m.state) {
        (m, OR_STATUS_INVALID_STATE)
    } else if ready > 1 {
        (m, OR_STATUS_INVALID_ARGUMENT)
    } else if ready == 1 {
        (finish_operation(enter_state(m, ClientState::Connected, op), op, OR_STATUS_OK), OR_STATUS_OK)
    } else {
        (finish_operation(enter_state(m, ClientState::Blocked, op), op, OR_STATUS_UNAVAILABLE), OR_STATUS_UNAVAILABLE)
    }
}

/// The network flags of a diagnostic: expensive, constrained and captive in
/// bits 0, 1 and 2.
pub open spec fn network_flags(expensive: u8, constrained: u8, captive: u8) -> u64 {
    (expensive + 2 * constrained + 4 * captive) as u64
}

/// A network change: losing the network or meeting a captive portal reports it
/// and forces a reconnect; a usable network lets a reconnect bootstrap again.
pub open spec fn network_model(
    m: ClientModel,
    available: u8,
    expensive: u8,
    constrained: u8,
    captive: u8,
) -> ClientModel {
    let flags = network_flags(expensive, constrained, captive);
    if available == 0 {
        let m1 = emit(m, EVENT_DIAGNOSTIC, 0, DIAGNOSTIC_NETWORK_UNAVAILABLE, flags, Seq::empty());
        if m.state == ClientState::Connected || m.state == ClientState::Rotating
            || m.state == ClientState::BootstrappingTor {
            enter_state(m1, ClientState::Reconnecting, 0)
        } else {
            m1
        }
    } else if captive == 1 {
        let m1 = emit(m, EVENT_DIAGNOSTIC, 0, DIAGNOSTIC_CAPTIVE_PORTAL, flags, Seq::empty());
        if m.state != ClientState::Disconnected {
            enter_state(m1, ClientState::Reconnecting, 0)
        } else {
            m1
        }
    } else if m.state == ClientState::Reconnecting {
        platform_action(
            enter_state(m, ClientState::BootstrappingTor, 0),
            0,
            ACTION_START_PROTECTED_CORE,
            Seq::empty(),
        )
    } else {
        m
    }
}

/// A rotation of the protected route, asked for while connected; the event
/// carries the rotation kind.
pub open spec fn rotate_model(m: ClientModel, kind: u32) -> ClientModel {
    let op = m.next_operation;
    platform_action(
        enter_state(start_operation(m), ClientState::Rotating, op),
        op,
        ACTION_START_PROTECTED_CORE,
        seq![kind as u8],
    )
}

/// A refresh request: a new operation and a platform action.
pub open spec fn request_model(m: ClientModel, action: u64) -> ClientModel {
    let op = m.next_operation;
    platform_action(start_operation(m), op, action, Seq::empty())
}

/// A resume after suspension, when the suspension time is known and not in the
/// future: an unhealthy protected path forces a reconnect unless disconnected.
pub open spec fn resume_model(m: ClientModel, monotonic_ms: u64, healthy: u8, suspended_at: u64) -> ClientModel {
    let m0 = ClientModel { suspended_at_ms: None, ..m };
    if healthy == 0 && m.state != ClientState::Disconnected {
        enter_state(
            emit(
                m0,
                EVENT_DIAGNOSTIC,
                0,
                DIAGNOSTIC_PROTECTED_PATH_UNHEALTHY,
                (monotonic_ms - suspended_at) as u64,
                Seq::empty(),
            ),
            ClientState::Reconnecting,
            0,
        )
    } else {
        m0
    }
}

/// A packet while no packet adapter exists: the first one is reported, and
/// none is ever forwarded.
pub open spec fn packet_model(m: ClientModel) -> ClientModel {
    if m.packet_unavailable_reported {
        m
    } else {
        emit(
            ClientModel { packet_unavailable_reported: true, ..m },
            EVENT_DIAGNOSTIC,
            0,
            DIAGNOSTIC_PACKET_CORE_UNAVAILABLE,
            0,
            Seq::empty(),
        )
    }
}

/// One client's state behind its handle.
#[derive(Debug)]
pub struct MobileClient {
    state: ClientState,
    events: Vec<OrEvent>,
    event_capacity: usize,
    next_sequence: u64,
    next_operation: u64,
    active_operations: Vec<u64>,
    country: Option<(u8, u8)>,
    anonymity_mode: u32,
    suspended_at_ms: Option<u64>,
    packet_unavailable_reported: bool,
}

pub open spec fn event_views(events: Seq<OrEvent>) -> Seq<EventView> {
    events.map_values(|e: OrEvent| e@)
}

impl View for MobileClient {
    type V = ClientModel;

    closed spec fn view(&self) -> ClientModel {
        ClientModel {
            state: self.state,
            events: event_views(self.events@),
            capacity: self.event_capacity as nat,
            next_sequence: self.next_sequence,
            next_operation: self.next_operation,
            active: Set::new(|x: u64| self.active_operations@.contains(x)),
            country: self.country,
            anonymity_mode: self.anonymity_mode,
            suspended_at_ms: self.suspended_at_ms,
            packet_unavailable_reported: self.packet_unavailable_reported,
        }
    }
}

/// A country selector is two uppercase ASCII letters.
pub open spec fn is_country_code(c: (u8, u8)) -> bool {
    65 <= c.0 <= 90 && 65 <= c.1 <= 90
}

/// What every client keeps between calls.
pub open spec fn model_valid(m: ClientModel) -> bool {
    &&& MIN_EVENT_CAPACITY <= m.capacity <= MAX_EVENT_CAPACITY
    &&& m.events.len() <= m.capacity
    &&& m.next_sequence != 0
    &&& m.next_operation != 0
    &&& m.anonymity_mode <= 3
    &&& (m.country matches Some(c) ==> is_country_code(c))
}

impl MobileClient {
    pub closed spec fn wf(&self) -> bool {
        &&& model_valid(self@)
        &&& self.events@.len() <= self.event_capacity
        &&& forall|i: int| 0 <= i < self.events@.len() ==> (#[trigger] self.events@[i]).well_formed()
        &&& forall|i: int, j: int|
            0 <= i < j < self.active_operations@.len() ==> self.active_operations@[i]
                != self.active_operations@[j]
    }

    proof fn lemma_views_len(&self)
        ensures
            self@.events.len() == self.events@.len(),
    {
    }

    fn make_event(
        &mut self,
        kind: u32,
        operation_id: u64,
        code: i32,
        value: u64,
        data: &[u8],
    ) -> (event: OrEvent)
        ensures
            event.well_formed(),
            event@ == (EventView {
                struct_size: EVENT_SIZE,
                kind,
                sequence: old(self).next_sequence,
                operation_id,
                code,
                value,
                data: event_payload(data@),
            }),
            final(self).next_sequence == next_nonzero(old(self).next_sequence),
            final(self).state == old(self).state,
            final(self).events == old(self).events,
            final(self).event_capacity == old(self).event_capacity,
            final(self).next_operation == old(self).next_operation,
            final(self).active_operations == old(self).active_operations,
            final(self).country == old(self).country,
            final(self).anonymity_mode == old(self).anonymity_mode,
            final(self).suspended_at_ms == old(self).suspended_at_ms,
            final(self).packet_unavailable_reported == old(self).packet_unavailable_reported,
    {
        let mut bytes = [0u8; 64];
        let copy_len: usize = if data.len() < EVENT_DATA_BYTES {
            data.len()
        } else {
            EVENT_DATA_BYTES
        };
        let mut i: usize = 0;
        while i < copy_len
            invariant
                copy_len <= data@.len(),
                copy_len <= EVENT_DATA_BYTES,
                i <= copy_len,
                bytes@.len() == EVENT_DATA_BYTES,
                forall|k: int| 0 <= k < i ==> bytes@[k] == data@[k],
                forall|k: int| i <= k < EVENT_DATA_BYTES ==> bytes@[k] == 0,
            decreases copy_len - i,
        {
            bytes[i] = data[i];
            i = i + 1;
        }
        let event = OrEvent {
            struct_size: EVENT_SIZE,
            kind,
            sequence: self.next_sequence,
            operation_id,
            code,
            data_len: copy_len as u32,
            value,
            data: bytes,
        };
        self.next_sequence = if self.next_sequence == u64::MAX {
            1
        } else {
            self.next_sequence + 1
        };
        assert(event@.data =~= event_payload(data@));
        event
    }

    /// Queues one event as `emit` describes.
    fn push_event(&mut self, kind: u32, operation_id: u64, code: i32, value: u64, data: &[u8])
        requires
            old(self).wf(),
        ensures
            final(self).wf(),
            final(self)@ == emit(old(self)@, kind, operation_id, code, value, data@),
    {
        let ghost before = self@;
        if self.events.len() + 2 > self.event_capacity {
            let keep = self.event_capacity - 2;
            let ghost first = self.events@;
            let mut events: Vec<OrEvent> = Vec::new();
            std::mem::swap(&mut events, &mut self.events);
            while events.len() > keep
                invariant
                    keep < first.len(),
                    keep <= events@.len() <= first.len(),
                    events@ == first.skip(first.len() - events@.len()),
                decreases events@.len(),
            {
                events.remove(0);
                assert(events@ =~= first.skip(first.len() - events@.len()));
            }
            std::mem::swap(&mut events, &mut self.events);
            let overflow = self.make_event(EVENT_QUEUE_OVERFLOW, 0, OR_STATUS_BACKPRESSURE, 0, &[]);
            self.events.push(overflow);
            let event = self.make_event(kind, operation_id, code, value, data);
            self.events.push(event);
            proof {
                let kept = first.skip(first.len() - keep);
                assert(event_views(kept) =~= before.events.skip(before.events.len() - before.capacity + 2));
                assert(event_views(self.events@) =~= event_views(kept).push(overflow@).push(event@));
                assert(overflow@.data =~= Seq::<u8>::empty());
                assert(self@.active =~= before.active);
                assert(self@ == emit(before, kind, operation_id, code, value, data@));
            }
        } else {
            let ghost first = self.events@;
            let event = self.make_event(kind, operation_id, code, value, data);
            self.events.push(event);
            proof {
                assert(event_views(self.events@) =~= event_views(first).push(event@));
                assert(self@.active =~= before.active);
                assert(self@ == emit(before, kind, operation_id, code, value, data@));
            }
        }
    }
}

impl MobileClient {
    /// Queues an event without payload.
    fn push_plain_event(&mut self, kind: u32, operation_id: u64, code: i32, value: u64)
        requires
            old(self).wf(),
        ensures
            final(self).wf(),
            final(self)@ == emit(old(self)@, kind, operation_id, code, value, Seq::empty()),
    {
        let empty: &[u8] = &[];
        assert(empty@ =~= Seq::<u8>::empty());
        self.push_event(kind, operation_id, code, value, empty);
    }
}

impl MobileClient {
    /// Creates a client from checked options; it starts disconnected with the
    /// version-negotiated event queued.
    pub fn create(options: OrCreateOptions) -> (result: Result<MobileClient, i32>)
        ensures
            match options_check(options) {
                Ok(capacity) => match result {
                    Ok(client) => client.wf() && client@ == created_model(capacity as nat),
                    Err(_) => false,
                },
                Err(status) => match result {
                    Ok(_) => false,
                    Err(s) => s == status,
                },
            },
    {
        let event_capacity = match validate_options(options) {
            Ok(value) => value,
            Err(status) => return Err(status),
        };
        let mut client = MobileClient {
            state: ClientState::Disconnected,
            events: Vec::new(),
            event_capacity,
            next_sequence: 1,
            next_operation: 1,
            active_operations: Vec::new(),
            country: None,
            anonymity_mode: 0,
            suspended_at_ms: None,
            packet_unavailable_reported: false,
        };
        proof {
            assert(client@.active =~= Set::<u64>::empty());
            assert(client@.events =~= Seq::<EventView>::empty());
            assert(client@ == fresh_model(event_capacity as nat));
        }
        let value: u64 = (ABI_MAJOR as u64) * 0x1_0000_0000 + ABI_MINOR as u64;
        client.push_plain_event(EVENT_ABI_NEGOTIATED, 0, OR_STATUS_OK, value);
        Ok(client)
    }

    fn begin_operation(&mut self) -> (operation: u64)
        requires
            old(self).wf(),
        ensures
            final(self).wf(),
            operation == old(self)@.next_operation,
            final(self)@ == start_operation(old(self)@),
    {
        let operation = self.next_operation;
        self.next_operation = if self.next_operation == u64::MAX {
            1
        } else {
            self.next_operation + 1
        };
        let mut present = false;
        let mut i: usize = 0;
        while i < self.active_operations.len()
            invariant
                i <= self.active_operations@.len(),
                present <==> exists|k: int| 0 <= k < i && self.active_operations@[k] == operation,
            decreases self.active_operations@.len() - i,
        {
            if self.active_operations[i] == operation {
                present = true;
            }
            i = i + 1;
        }
        let ghost before = self.active_operations@;
        if !present {
            self.active_operations.push(operation);
            proof {
                assert forall|a: int, b: int| 0 <= a < b < self.active_operations@.len()
                    implies self.active_operations@[a] != self.active_operations@[b] by {
                    if b == before.len() {
                        assert(before[a] != operation);
                    }
                }
            }
        }
        proof {
            let after = self.active_operations@;
            assert forall|x: u64| #![trigger after.contains(x)]
                after.contains(x) == (before.contains(x) || x == operation) by {
                if present {
                    assert(after == before);
                    let k = choose|k: int| 0 <= k < before.len() && before[k] == operation;
                    assert(before[k] == operation);
                } else {
                    assert(after == before.push(operation));
                    if before.contains(x) {
                        let k = choose|k: int| 0 <= k < before.len() && before[k] == x;
                        assert(after[k] == x);
                    }
                    if x == operation {
                        assert(after[before.len() as int] == x);
                    }
                    if after.contains(x) {
                        let k = choose|k: int| 0 <= k < after.len() && after[k] == x;
                        if k < before.len() {
                            assert(before[k] == x);
                        }
                    }
                }
            }
            assert(self@.active =~= old(self)@.active.insert(operation));
        }
        operation
    }

    fn set_state(&mut self, state: ClientState, operation_id: u64)
        requires
            old(self).wf(),
        ensures
            final(self).wf(),
            final(self)@ == enter_state(old(self)@, state, operation_id),
    {
        self.state = state;
        proof {
            assert(self@.active =~= old(self)@.active);
            assert(self@ == (ClientModel { state, ..old(self)@ }));
        }
        let number = state.number();
        self.push_plain_event(EVENT_STATE_CHANGED, operation_id, OR_STATUS_OK, number);
    }

    /// Removes `operation_id` from the active operations; the result says
    /// whether it was active.
    fn retire_operation(&mut self, operation_id: u64) -> (was_active: bool)
        requires
            old(self).wf(),
        ensures
            final(self).wf(),
            was_active == old(self)@.active.contains(operation_id),
            final(self)@ == (ClientModel { active: old(self)@.active.remove(operation_id), ..old(self)@ }),
    {
        let len = self.active_operations.len();
        let mut found = len;
        let mut i: usize = 0;
        while i < len
            invariant
                len == self.active_operations@.len(),
                i <= len,
                found == len ==> forall|k: int| 0 <= k < i ==> self.active_operations@[k] != operation_id,
                found < len ==> found < i && self.active_operations@[found as int] == operation_id,
                found <= len,
            decreases len - i,
        {
            if found == len && self.active_operations[i] == operation_id {
                found = i;
            }
            i = i + 1;
        }
        let i = found;
        let ghost before = self.active_operations@;
        if i < self.active_operations.len() {
            self.active_operations.remove(i);
            proof {
                assert(self.active_operations@ =~= before.take(i as int) + before.skip(i as int + 1));
                assert forall|a: int, b: int| 0 <= a < b < self.active_operations@.len()
                    implies self.active_operations@[a] != self.active_operations@[b] by {
                    let a0 = if a < i { a } else { a + 1 };
                    let b0 = if b < i { b } else { b + 1 };
                    assert(self.active_operations@[a] == before[a0]);
                    assert(self.active_operations@[b] == before[b0]);
                }
                assert(self@.active =~= old(self)@.active.remove(operation_id)) by {
                    assert forall|x: u64| old(self)@.active.remove(operation_id).contains(x)
                        implies self@.active.contains(x) by {
                        let k = choose|k: int| 0 <= k < before.len() && before[k] == x;
                        if k < i {
                            assert(self.active_operations@[k] == x);
                        } else {
                            assert(k != i);
                            assert(self.active_operations@[k - 1] == x);
                        }
                    }
                    assert forall|x: u64| self@.active.contains(x)
                        implies old(self)@.active.remove(operation_id).contains(x) by {
                        let k = choose|k: int| 0 <= k < self.active_operations@.len() && self.active_operations@[k] == x;
                        let k0 = if k < i { k } else { k + 1 };
                        assert(before[k0] == x);
                        assert(before[i as int] == operation_id);
                        assert(k0 != i);
                    }
                }
                assert(before[i as int] == operation_id);
                assert(old(self)@.active.contains(operation_id));
            }
            true
        } else {
            proof {
                assert(self@.active =~= old(self)@.active.remove(operation_id));
            }
            false
        }
    }

    fn finish_operation(&mut self, operation_id: u64, code: i32)
        requires
            old(self).wf(),
        ensures
            final(self).wf(),
            final(self)@ == finish_operation(old(self)@, operation_id, code),
    {
        let _ = self.retire_operation(operation_id);
        self.push_plain_event(EVENT_OPERATION, operation_id, code, 0);
    }

    fn lowest_active_operation(&self) -> (operation: u64)
        requires
            self.wf(),
        ensures
            operation == lowest_active(self@.active),
    {
        if self.active_operations.len() == 0 {
            proof {
                assert forall|x: u64| !is_lowest(self@.active, x) by {
                    if self@.active.contains(x) {
                        let k = choose|k: int| 0 <= k < self.active_operations@.len() && self.active_operations@[k] == x;
                    }
                }
            }
            return 0;
        }
        let mut best = self.active_operations[0];
        let mut i: usize = 1;
        while i < self.active_operations.len()
            invariant
                1 <= i <= self.active_operations@.len(),
                self.active_operations@.contains(best),
                forall|k: int| 0 <= k < i ==> best <= self.active_operations@[k],
            decreases self.active_operations@.len() - i,
        {
            if self.active_operations[i] < best {
                best = self.active_operations[i];
            }
            i = i + 1;
        }
        proof {
            let s = self@.active;
            assert forall|y: u64| s.contains(y) implies best <= y by {
                let k = choose|k: int| 0 <= k < self.active_operations@.len() && self.active_operations@[k] == y;
                assert(best <= self.active_operations@[k]);
            }
            assert(is_lowest(s, best));
            let c = choose|x: u64| is_lowest(s, x);
            assert(is_lowest(s, c));
            assert(c <= best && best <= c);
        }
        best
    }
}

impl MobileClient {
    /// Starts fail-closed connection preparation, from `Disconnected` or
    /// `Blocked` only.
    pub fn connect(&mut self) -> (result: Result<u64, i32>)
        requires
            old(self).wf(),
        ensures
            final(self).wf(),
            if old(self)@.state == ClientState::Disconnected || old(self)@.state == ClientState::Blocked {
                result == Ok::<u64, i32>(old(self)@.next_operation) && final(self)@ == connect_model(old(self)@)
            } else {
                result == Err::<u64, i32>(OR_STATUS_INVALID_STATE) && final(self)@ == old(self)@
            },
    {
        if self.state != ClientState::Disconnected && self.state != ClientState::Blocked {
            return Err(OR_STATUS_INVALID_STATE);
        }
        let operation = self.begin_operation();
        self.set_state(ClientState::Preparing, operation);
        self.set_state(ClientState::ApplyingKillSwitch, operation);
        self.push_plain_event(EVENT_PLATFORM_ACTION, operation, OR_STATUS_OK, ACTION_APPLY_KILL_SWITCH);
        Ok(operation)
    }

    /// Stops the client in reverse order: the core is stopped, then the client
    /// is disconnected and the operation finished.
    pub fn disconnect(&mut self) -> (result: Result<u64, i32>)
        requires
            old(self).wf(),
        ensures
            final(self).wf(),
            if old(self)@.state != ClientState::Disconnected {
                result == Ok::<u64, i32>(old(self)@.next_operation) && final(self)@ == disconnect_model(old(self)@)
            } else {
                result == Err::<u64, i32>(OR_STATUS_INVALID_STATE) && final(self)@ == old(self)@
            },
    {
        if self.state == ClientState::Disconnected {
            return Err(OR_STATUS_INVALID_STATE);
        }
        let operation = self.begin_operation();
        self.set_state(ClientState::Disconnecting, operation);
        self.push_plain_event(EVENT_PLATFORM_ACTION, operation, OR_STATUS_OK, ACTION_STOP_PROTECTED_CORE);
        self.set_state(ClientState::Disconnected, operation);
        self.finish_operation(operation, OR_STATUS_OK);
        Ok(operation)
    }

    /// The platform reports whether the kill switch is in place.
    pub fn set_tunnel_ready(&mut self, ready: u8) -> (status: i32)
        requires
            old(self).wf(),
        ensures
            final(self).wf(),
            (final(self)@, status) == tunnel_ready_model(old(self)@, ready),
    {
        if self.state != ClientState::ApplyingKillSwitch {
            return OR_STATUS_INVALID_STATE;
        }
        let operation = self.lowest_active_operation();
        if ready == 1 {
            self.set_state(ClientState::BootstrappingTor, operation);
            self.push_plain_event(EVENT_PLATFORM_ACTION, operation, OR_STATUS_OK, ACTION_START_PROTECTED_CORE);
            OR_STATUS_OK
        } else if ready == 0 {
            self.set_state(ClientState::Blocked, operation);
            self.finish_operation(operation, OR_STATUS_UNAVAILABLE);
            OR_STATUS_UNAVAILABLE
        } else {
            OR_STATUS_INVALID_ARGUMENT
        }
    }

    /// The platform reports whether the protected core is healthy.
    pub fn set_core_ready(&mut self, ready: u8) -> (status: i32)
        requires
            old(self).wf(),
        ensures
            final(self).wf(),
            (final(self)@, status) == core_ready_model(old(self)@, ready),
    {
        if self.state != ClientState::BootstrappingTor && self.state != ClientState::Rotating
            && self.state != ClientState::Reconnecting {
            return OR_STATUS_INVALID_STATE;
        }
        if ready > 1 {
            return OR_STATUS_INVALID_ARGUMENT;
        }
        let operation = self.lowest_active_operation();
        if ready == 1 {
            self.set_state(ClientState::Connected, operation);
            self.finish_operation(operation, OR_STATUS_OK);
            OR_STATUS_OK
        } else {
            self.set_state(ClientState::Blocked, operation);
            self.finish_operation(operation, OR_STATUS_UNAVAILABLE);
            OR_STATUS_UNAVAILABLE
        }
    }

    /// The platform reports a network change; each flag is 0 or 1.
    pub fn set_network(&mut self, available: u8, expensive: u8, constrained: u8, captive: u8) -> (status: i32)
        requires
            old(self).wf(),
        ensures
            final(self).wf(),
            if available > 1 || expensive > 1 || constrained > 1 || captive > 1 {
                status == OR_STATUS_INVALID_ARGUMENT && final(self)@ == old(self)@
            } else {
                status == OR_STATUS_OK && final(self)@ == network_model(
                    old(self)@,
                    available,
                    expensive,
                    constrained,
                    captive,
                )
            },
    {
        if available > 1 || expensive > 1 || constrained > 1 || captive > 1 {
            return OR_STATUS_INVALID_ARGUMENT;
        }
        let flags: u64 = expensive as u64 + 2 * (constrained as u64) + 4 * (captive as u64);
        if available == 0 {
            self.push_plain_event(EVENT_DIAGNOSTIC, 0, DIAGNOSTIC_NETWORK_UNAVAILABLE, flags);
            if self.state == ClientState::Connected || self.state == ClientState::Rotating
                || self.state == ClientState::BootstrappingTor {
                self.set_state(ClientState::Reconnecting, 0);
            }
            return OR_STATUS_OK;
        }
        if captive == 1 {
            self.push_plain_event(EVENT_DIAGNOSTIC, 0, DIAGNOSTIC_CAPTIVE_PORTAL, flags);
            if self.state != ClientState::Disconnected {
                self.set_state(ClientState::Reconnecting, 0);
            }
            return OR_STATUS_OK;
        }
        if self.state == ClientState::Reconnecting {
            self.set_state(ClientState::BootstrappingTor, 0);
            self.push_plain_event(EVENT_PLATFORM_ACTION, 0, OR_STATUS_OK, ACTION_START_PROTECTED_CORE);
        }
        OR_STATUS_OK
    }

    /// Selects the exit country by its two uppercase letters.
    pub fn set_country(&mut self, country: [u8; 2]) -> (status: i32)
        requires
            old(self).wf(),
        ensures
            final(self).wf(),
            if is_country_code((country@[0], country@[1])) {
                status == OR_STATUS_OK
                    && final(self)@ == (ClientModel { country: Some((country@[0], country@[1])), ..old(self)@ })
            } else {
                status == OR_STATUS_INVALID_ARGUMENT && final(self)@ == old(self)@
            },
    {
        let first = country[0];
        let second = country[1];
        if first < 65 || first > 90 || second < 65 || second > 90 {
            return OR_STATUS_INVALID_ARGUMENT;
        }
        self.country = Some((first, second));
        proof {
            assert(self@.active =~= old(self)@.active);
        }
        OR_STATUS_OK
    }

    /// Selects the anonymity mode, one of 0 to 3.
    pub fn set_anonymity_mode(&mut self, mode: u32) -> (status: i32)
        requires
            old(self).wf(),
        ensures
            final(self).wf(),
            if mode <= 3 {
                status == OR_STATUS_OK && final(self)@ == (ClientModel { anonymity_mode: mode, ..old(self)@ })
            } else {
                status == OR_STATUS_INVALID_ARGUMENT && final(self)@ == old(self)@
            },
    {
        if mode > 3 {
            return OR_STATUS_INVALID_ARGUMENT;
        }
        self.anonymity_mode = mode;
        proof {
            assert(self@.active =~= old(self)@.active);
        }
        OR_STATUS_OK
    }

    /// Requests a soft (0) or hard (1) rotation of the protected route, only
    /// while connected.
    pub fn rotate(&mut self, kind: u32) -> (result: Result<u64, i32>)
        requires
            old(self).wf(),
        ensures
            final(self).wf(),
            if kind > 1 {
                result == Err::<u64, i32>(OR_STATUS_INVALID_ARGUMENT) && final(self)@ == old(self)@
            } else if old(self)@.state != ClientState::Connected {
                result == Err::<u64, i32>(OR_STATUS_INVALID_STATE) && final(self)@ == old(self)@
            } else {
                result == Ok::<u64, i32>(old(self)@.next_operation) && final(self)@ == rotate_model(old(self)@, kind)
            },
    {
        if kind > 1 {
            return Err(OR_STATUS_INVALID_ARGUMENT);
        }
        if self.state != ClientState::Connected {
            return Err(OR_STATUS_INVALID_STATE);
        }
        let operation = self.begin_operation();
        self.set_state(ClientState::Rotating, operation);
        let detail: [u8; 1] = [kind as u8];
        let data: &[u8] = detail.as_slice();
        proof {
            assert(data@ =~= seq![kind as u8]);
        }
        self.push_event(EVENT_PLATFORM_ACTION, operation, OR_STATUS_OK, ACTION_START_PROTECTED_CORE, data);
        Ok(operation)
    }

    /// Starts an operation that asks the platform for `action`.
    pub fn request_action(&mut self, action: u64) -> (operation: u64)
        requires
            old(self).wf(),
        ensures
            final(self).wf(),
            operation == old(self)@.next_operation,
            final(self)@ == request_model(old(self)@, action),
    {
        let operation = self.begin_operation();
        self.push_plain_event(EVENT_PLATFORM_ACTION, operation, OR_STATUS_OK, action);
        operation
    }

    /// Requests an anonymous capability-token refresh.
    pub fn request_token_refresh(&mut self) -> (operation: u64)
        requires
            old(self).wf(),
        ensures
            final(self).wf(),
            operation == old(self)@.next_operation,
            final(self)@ == request_model(old(self)@, ACTION_REFRESH_TOKEN),
    {
        self.request_action(ACTION_REFRESH_TOKEN)
    }

    /// Requests a refresh of the signed configuration and catalog.
    pub fn request_config_refresh(&mut self) -> (operation: u64)
        requires
            old(self).wf(),
        ensures
            final(self).wf(),
            operation == old(self)@.next_operation,
            final(self)@ == request_model(old(self)@, ACTION_REFRESH_SIGNED_CONFIG),
    {
        self.request_action(ACTION_REFRESH_SIGNED_CONFIG)
    }

    /// Cancels an active operation; cancelling one that is not active, or
    /// zero, is an invalid argument.
    pub fn cancel(&mut self, operation_id: u64) -> (status: i32)
        requires
            old(self).wf(),
        ensures
            final(self).wf(),
            if operation_id != 0 && old(self)@.active.contains(operation_id) {
                status == OR_STATUS_OK && final(self)@ == emit(
                    ClientModel { active: old(self)@.active.remove(operation_id), ..old(self)@ },
                    EVENT_OPERATION,
                    operation_id,
                    OR_STATUS_CANCELLED,
                    0,
                    Seq::empty(),
                )
            } else {
                status == OR_STATUS_INVALID_ARGUMENT && final(self)@ == old(self)@
            },
    {
        if operation_id == 0 {
            return OR_STATUS_INVALID_ARGUMENT;
        }
        if !self.retire_operation(operation_id) {
            proof {
                assert(old(self)@.active.remove(operation_id) =~= old(self)@.active);
            }
            return OR_STATUS_INVALID_ARGUMENT;
        }
        self.push_plain_event(EVENT_OPERATION, operation_id, OR_STATUS_CANCELLED, 0);
        OR_STATUS_OK
    }

    /// Records when the platform suspended the client.
    pub fn suspend(&mut self, monotonic_ms: u64) -> (status: i32)
        requires
            old(self).wf(),
        ensures
            final(self).wf(),
            status == OR_STATUS_OK,
            final(self)@ == (ClientModel { suspended_at_ms: Some(monotonic_ms), ..old(self)@ }),
    {
        self.suspended_at_ms = Some(monotonic_ms);
        proof {
            assert(self@.active =~= old(self)@.active);
        }
        OR_STATUS_OK
    }

    /// Resumes after a suspension, with the platform's verdict on the
    /// protected path (0 or 1). The suspension is consumed once known, even
    /// when the clock went backwards.
    pub fn resume(&mut self, monotonic_ms: u64, protected_path_healthy: u8) -> (status: i32)
        requires
            old(self).wf(),
        ensures
            final(self).wf(),
            protected_path_healthy > 1 ==> status == OR_STATUS_INVALID_ARGUMENT && final(self)@ == old(self)@,
            protected_path_healthy <= 1 ==> match old(self)@.suspended_at_ms {
                None => status == OR_STATUS_INVALID_STATE && final(self)@ == old(self)@,
                Some(at) => if monotonic_ms < at {
                    status == OR_STATUS_INVALID_ARGUMENT
                        && final(self)@ == (ClientModel { suspended_at_ms: None, ..old(self)@ })
                } else {
                    status == OR_STATUS_OK
                        && final(self)@ == resume_model(old(self)@, monotonic_ms, protected_path_healthy, at)
                },
            },
    {
        if protected_path_healthy > 1 {
            return OR_STATUS_INVALID_ARGUMENT;
        }
        let suspended_at = match self.suspended_at_ms {
            Some(value) => value,
            None => return OR_STATUS_INVALID_STATE,
        };
        self.suspended_at_ms = None;
        proof {
            assert(self@.active =~= old(self)@.active);
        }
        if monotonic_ms < suspended_at {
            return OR_STATUS_INVALID_ARGUMENT;
        }
        if protected_path_healthy == 0 && self.state != ClientState::Disconnected {
            self.push_plain_event(
                EVENT_DIAGNOSTIC,
                0,
                DIAGNOSTIC_PROTECTED_PATH_UNHEALTHY,
                monotonic_ms - suspended_at,
            );
            self.set_state(ClientState::Reconnecting, 0);
        }
        OR_STATUS_OK
    }

    /// Takes one complete IP packet of 1 to 128 KiB bytes. No packet adapter
    /// exists, so every packet is refused as unavailable; there is no direct
    /// path around the protected core.
    pub fn submit_packet(&mut self, packet: &[u8]) -> (status: i32)
        requires
            old(self).wf(),
        ensures
            final(self).wf(),
            if packet@.len() == 0 || packet@.len() > MAX_PACKET_BYTES {
                status == OR_STATUS_INVALID_ARGUMENT && final(self)@ == old(self)@
            } else {
                status == OR_STATUS_UNAVAILABLE && final(self)@ == packet_model(old(self)@)
            },
    {
        if packet.len() == 0 || packet.len() > MAX_PACKET_BYTES {
            return OR_STATUS_INVALID_ARGUMENT;
        }
        if !self.packet_unavailable_reported {
            self.packet_unavailable_reported = true;
            proof {
                assert(self@.active =~= old(self)@.active);
            }
            self.push_plain_event(EVENT_DIAGNOSTIC, 0, DIAGNOSTIC_PACKET_CORE_UNAVAILABLE, 0);
        }
        OR_STATUS_UNAVAILABLE
    }

    /// Takes the oldest queued event, if any.
    pub fn poll_event(&mut self) -> (event: Option<OrEvent>)
        requires
            old(self).wf(),
        ensures
            final(self).wf(),
            match event {
                Some(e) => old(self)@.events.len() > 0 && e.well_formed() && e@ == old(self)@.events[0]
                    && final(self)@ == (ClientModel { events: old(self)@.events.drop_first(), ..old(self)@ }),
                None => old(self)@.events.len() == 0 && final(self)@ == old(self)@,
            },
    {
        if self.events.len() == 0 {
            return None;
        }
        let ghost before = self.events@;
        let event = self.events.remove(0);
        proof {
            assert(event_views(self.events@) =~= event_views(before).drop_first());
            assert(self@.active =~= old(self)@.active);
        }
        Some(event)
    }

    /// Shuts the client down: active operations and queued events are dropped
    /// and the client is left disconnected.
    pub fn shut_down(&mut self)
        requires
            old(self).wf(),
        ensures
            final(self).wf(),
            final(self)@ == (ClientModel {
                state: ClientState::Disconnected,
                events: Seq::empty(),
                active: Set::empty(),
                ..old(self)@
            }),
    {
        self.active_operations = Vec::new();
        self.events = Vec::new();
        self.state = ClientState::Disconnected;
        proof {
            assert(self@.active =~= Set::<u64>::empty());
            assert(self@.events =~= Seq::<EventView>::empty());
        }
    }
}

impl MobileClient {
    /// What a client keeps between calls holds of its model.
    pub proof fn lemma_model_valid(&self)
        requires
            self.wf(),
        ensures
            model_valid(self@),
    {
    }
}

/// Queueing an event never takes the queue past its capacity, keeps the
/// client's invariant, and whenever older events had to be dropped, an
/// overflow event directly precedes the new one.
pub proof fn lemma_queue_bounded_and_losses_reported(
    m: ClientModel,
    kind: u32,
    operation_id: u64,
    code: i32,
    value: u64,
    data: Seq<u8>,
)
    requires
        model_valid(m),
    ensures
        model_valid(emit(m, kind, operation_id, code, value, data)),
        emit(m, kind, operation_id, code, value, data).events.len() <= m.capacity,
        emit(m, kind, operation_id, code, value, data).state == m.state,
        emit(m, kind, operation_id, code, value, data).active == m.active,
        m.events.len() + 2 > m.capacity ==> {
            let after = emit(m, kind, operation_id, code, value, data).events;
            after[after.len() - 2].kind == EVENT_QUEUE_OVERFLOW
                && after[after.len() - 2].code == OR_STATUS_BACKPRESSURE
        },
        m.events.len() + 2 <= m.capacity ==> emit(m, kind, operation_id, code, value, data).events.drop_last()
            == m.events,
{
}

/// Fail-closed lifecycle: starting from any state but `Connected`, no call
/// reaches `Connected` except the platform's health proof of the protected
/// core (`set_core_ready(1)`) while the core is being awaited.
pub proof fn lemma_only_core_proof_connects(m: ClientModel)
    requires
        model_valid(m),
        m.state != ClientState::Connected,
    ensures
        connect_model(m).state != ClientState::Connected,
        disconnect_model(m).state != ClientState::Connected,
        forall|ready: u8| (#[trigger] tunnel_ready_model(m, ready)).0.state != ClientState::Connected,
        forall|a: u8, e: u8, c: u8, p: u8| #[trigger] network_model(m, a, e, c, p).state != ClientState::Connected,
        forall|action: u64| #[trigger] request_model(m, action).state != ClientState::Connected,
        forall|now: u64, healthy: u8, at: u64| #[trigger] resume_model(m, now, healthy, at).state
            != ClientState::Connected,
        packet_model(m).state != ClientState::Connected,
        forall|ready: u8| (#[trigger] core_ready_model(m, ready)).0.state == ClientState::Connected ==> ready == 1
            && awaits_core(m.state),
{
}

/// Rotation is only asked for while connected, and it leaves `Connected`
/// until a new health proof arrives.
pub proof fn lemma_rotation_leaves_connected(m: ClientModel, kind: u32)
    ensures
        rotate_model(m, kind).state == ClientState::Rotating,
{
}

/// A cancelled operation is no longer active, so cancelling it again is
/// refused.
pub proof fn lemma_cancel_is_final(m: ClientModel, operation_id: u64)
    ensures
        !emit(
            ClientModel { active: m.active.remove(operation_id), ..m },
            EVENT_OPERATION,
            operation_id,
            OR_STATUS_CANCELLED,
            0,
            Seq::empty(),
        ).active.contains(operation_id),
{
}

} // verus!
