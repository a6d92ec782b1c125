//! The versioned, bounded inter-gateway protocol: its messages, limits,
//! handshake checks, replay cache and framing. Times are Unix seconds or
//! milliseconds on the caller's monotonic clock, as each name says.
use vstd::prelude::*;
use vstd::utf8::encode_utf8;

use crate::gateway::limits::{
    ABSOLUTE_MAX_FRAME_SIZE, MAX_CONNECTION_WINDOW, MAX_DATA_PAYLOAD, MAX_STREAM_WINDOW,
};
use crate::gateway::varint::{
    decode_canonical_u32_varint as decode_prefix, encode_u32_varint, u32_prefix_result,
    varint_encoding,
};
use crate::multihop::error::{Error, ErrorCode};
use crate::multihop::identity::{check_service_id, service_id_valid, IdentityPurpose, PeerIdentity};
use crate::multihop::route::{GatewayRole, ProtocolVersion};

verus! {

pub const MAX_SERVICE_ID: usize = 128;
pub const NONCE_SIZE: usize = 32;
pub const CONNECTION_ID_SIZE: usize = 16;
pub const BINDING_SIZE: usize = 32;
/// The largest tolerated clock skew of a client hello, in seconds.
pub const MAX_CLOCK_SKEW_SECONDS: u64 = 60;
pub const MAX_REPLAY_ENTRIES: usize = 16384;
/// How long a handshake nonce is remembered, in milliseconds.
pub const DEFAULT_REPLAY_TTL_MS: u64 = 600000;

#[derive(Clone, Debug, PartialEq)]
pub struct InterGatewayFrame {
    pub sequence: u64,
    pub version: Option<WireVersion>,
    pub connection_id: Vec<u8>,
    pub body: Option<Body>,
}

#[derive(Clone, Debug, PartialEq)]
pub enum Body {
    ClientHello(ClientHello),
    ServerHello(ServerHello),
    Finished(Finished),
    OpenSession(OpenSession),
    SessionOpened(SessionOpened),
    SessionRejected(SessionRejected),
    Data(Data),
    WindowUpdate(WindowUpdate),
    HalfClose(HalfClose),
    CloseSession(CloseSession),
    Ping(Ping),
    Pong(Pong),
    GoAway(GoAway),
}

#[derive(Clone, Copy, Debug, PartialEq, Eq, Structural)]
pub struct WireVersion {
    pub major: u32,
    pub minor: u32,
}

#[derive(Clone, Debug, PartialEq)]
pub struct ClientHello {
    pub service_id: String,
    pub role: i32,
    pub minimum_version: Option<WireVersion>,
    pub maximum_version: Option<WireVersion>,
    pub nonce: Vec<u8>,
    pub unix_seconds: i64,
    pub initial_connection_receive_window: u32,
    pub initial_session_receive_window: u32,
}

#[derive(Clone, Debug, PartialEq)]
pub struct ServerHello {
    pub service_id: String,
    pub role: i32,
    pub selected_version: Option<WireVersion>,
    pub echoed_client_nonce: Vec<u8>,
    pub server_nonce: Vec<u8>,
    pub connection_id: Vec<u8>,
    pub maximum_concurrent_sessions: u32,
    pub initial_connection_receive_window: u32,
    pub initial_session_receive_window: u32,
}

#[derive(Clone, Debug, PartialEq)]
pub struct Finished {
    pub exporter_binding: Vec<u8>,
}

#[derive(Clone, Copy, Debug, PartialEq, Eq, Structural)]
pub struct OpenSession {
    pub session_id: u64,
    pub terminal_protocol_version: Option<WireVersion>,
    pub initial_receive_window: u32,
    pub expires_at_unix_seconds: i64,
}

#[derive(Clone, Copy, Debug, PartialEq, Eq, Structural)]
pub struct SessionOpened {
    pub session_id: u64,
    pub initial_receive_window: u32,
}

#[derive(Clone, Copy, Debug, PartialEq, Eq, Structural)]
pub struct SessionRejected {
    pub session_id: u64,
    pub code: i32,
}

#[derive(Clone, Debug, PartialEq)]
pub struct Data {
    pub session_id: u64,
    pub payload: Vec<u8>,
}

#[derive(Clone, Copy, Debug, PartialEq, Eq, Structural)]
pub struct WindowUpdate {
    pub session_id: u64,
    pub credit: u32,
}

#[derive(Clone, Copy, Debug, PartialEq, Eq, Structural)]
pub struct HalfClose {
    pub session_id: u64,
}

#[derive(Clone, Copy, Debug, PartialEq, Eq, Structural)]
pub struct CloseSession {
    pub session_id: u64,
    pub code: i32,
}

#[derive(Clone, Debug, PartialEq)]
pub struct Ping {
    pub nonce: Vec<u8>,
}

#[derive(Clone, Debug, PartialEq)]
pub struct Pong {
    pub nonce: Vec<u8>,
}

#[derive(Clone, Copy, Debug, PartialEq, Eq, Structural)]
pub struct GoAway {
    pub last_accepted_session_id: u64,
    pub drain_timeout_ms: u32,
}

/// Gateway roles on the wire: 0 unspecified, 1 entry, 2 exit.
#[derive(Clone, Copy, Debug, PartialEq, Eq, Structural)]
pub enum WireRole {
    Unspecified,
    Entry,
    Exit,
}

pub open spec fn wire_role_number(role: WireRole) -> i32 {
    match role {
        WireRole::Unspecified => 0,
        WireRole::Entry => 1,
        WireRole::Exit => 2,
    }
}

impl WireRole {
    pub fn number(self) -> (value: i32)
        ensures
            value == wire_role_number(self),
    {
        match self {
            WireRole::Unspecified => 0,
            WireRole::Entry => 1,
            WireRole::Exit => 2,
        }
    }
}

/// Session rejection codes on the wire, numbered 0 to 5 in this order.
#[derive(Clone, Copy, Debug, PartialEq, Eq, Structural)]
pub enum RejectCode {
    Unspecified,
    Policy,
    ResourceExhausted,
    Draining,
    Revoked,
    Incompatible,
}

/// Session close codes on the wire, numbered 0 to 5 in this order.
#[derive(Clone, Copy, Debug, PartialEq, Eq, Structural)]
pub enum CloseCode {
    Unspecified,
    Finished,
    Cancelled,
    Timeout,
    Protocol,
    Revoked,
}

/// A known, specified rejection or close code: 1 to 5.
pub open spec fn known_nonzero_code(code: i32) -> bool {
    1 <= code <= 5
}

#[derive(Clone, Copy, Debug)]
pub struct ProtocolLimits {
    pub maximum_frame_size: usize,
    pub maximum_concurrent_sessions: usize,
    pub initial_connection_window: u32,
    pub initial_session_window: u32,
    pub handshake_timeout_ms: u64,
    pub maximum_session_ttl_ms: u64,
}

/// Whether `ProtocolLimits::validate` accepts the limits.
pub open spec fn limits_valid(limits: ProtocolLimits) -> bool {
    &&& 0 < limits.maximum_frame_size <= ABSOLUTE_MAX_FRAME_SIZE
    &&& 0 < limits.maximum_concurrent_sessions <= 4096
    &&& 0 < limits.initial_connection_window <= MAX_CONNECTION_WINDOW
    &&& 0 < limits.initial_session_window <= MAX_STREAM_WINDOW
    &&& limits.handshake_timeout_ms > 0
    &&& 0 < limits.maximum_session_ttl_ms <= 86400000
}

impl Default for ProtocolLimits {
    fn default() -> (limits: Self)
        ensures
            limits.maximum_frame_size == ABSOLUTE_MAX_FRAME_SIZE,
            limits.maximum_concurrent_sessions == 512,
            limits.initial_connection_window == 4194304,
            limits.initial_session_window == 262144,
            limits.handshake_timeout_ms == 10000,
            limits.maximum_session_ttl_ms == 3600000,
            limits_valid(limits),
    {
        ProtocolLimits {
            maximum_frame_size: ABSOLUTE_MAX_FRAME_SIZE,
            maximum_concurrent_sessions: 512,
            initial_connection_window: 4194304,
            initial_session_window: 262144,
            handshake_timeout_ms: 10000,
            maximum_session_ttl_ms: 3600000,
        }
    }
}

impl ProtocolLimits {
    pub fn validate(&self) -> (result: Result<(), Error>)
        ensures
            result is Ok <==> limits_valid(*self),
            result matches Err(e) ==> e.code == ErrorCode::InvalidConfiguration,
    {
        if self.maximum_frame_size == 0 || self.maximum_frame_size > ABSOLUTE_MAX_FRAME_SIZE
            || self.maximum_concurrent_sessions == 0 || self.maximum_concurrent_sessions > 4096
            || self.initial_connection_window == 0 || self.initial_connection_window as u64
            > MAX_CONNECTION_WINDOW || self.initial_session_window == 0
            || self.initial_session_window as u64 > MAX_STREAM_WINDOW || self.handshake_timeout_ms
            == 0 || self.maximum_session_ttl_ms == 0 || self.maximum_session_ttl_ms > 86400000 {
            return Err(Error::new(ErrorCode::InvalidConfiguration));
        }
        Ok(())
    }
}

/// `a` orders at or before `b`: by major, then minor version.
pub open spec fn version_le(a: ProtocolVersion, b: ProtocolVersion) -> bool {
    a.major < b.major || (a.major == b.major && a.minor <= b.minor)
}

fn version_at_most(a: ProtocolVersion, b: ProtocolVersion) -> (le: bool)
    ensures
        le == version_le(a, b),
{
    a.major < b.major || (a.major == b.major && a.minor <= b.minor)
}

#[derive(Clone, Copy, Debug)]
pub struct HandshakeConfig {
    pub minimum_version: ProtocolVersion,
    pub maximum_version: ProtocolVersion,
    pub limits: ProtocolLimits,
}

/// Whether `HandshakeConfig::validate` accepts the configuration.
pub open spec fn handshake_config_valid(config: HandshakeConfig) -> bool {
    &&& limits_valid(config.limits)
    &&& config.minimum_version.major != 0
    &&& config.minimum_version.major == config.maximum_version.major
    &&& version_le(config.minimum_version, config.maximum_version)
}

impl HandshakeConfig {
    pub fn validate(&self) -> (result: Result<(), Error>)
        ensures
            result is Ok <==> handshake_config_valid(*self),
            result matches Err(e) ==> e.code == ErrorCode::InvalidConfiguration,
    {
        self.limits.validate()?;
        if self.minimum_version.major == 0 || self.minimum_version.major
            != self.maximum_version.major || !version_at_most(
            self.minimum_version,
            self.maximum_version,
        ) {
            return Err(Error::new(ErrorCode::InvalidConfiguration));
        }
        Ok(())
    }
}

/// One remembered handshake nonce: the peer's service ID, the nonce and when
/// it was recorded.
pub type ReplayEntry = (Seq<char>, Seq<u8>, u64);

/// Whether an entry recorded at `inserted` is still remembered at `now`.
pub open spec fn replay_entry_fresh(inserted: u64, now: u64, ttl: u64) -> bool {
    now < inserted || now - inserted <= ttl
}

/// The entries still remembered at `now`, in order.
pub open spec fn fresh_entries(entries: Seq<ReplayEntry>, now: u64, ttl: u64) -> Seq<ReplayEntry> {
    entries.filter(|e: ReplayEntry| replay_entry_fresh(e.2, now, ttl))
}

/// Bounded replay cache for client handshake nonces.
pub struct ReplayCache {
    entries: Vec<(String, Vec<u8>, u64)>,
    ttl_ms: u64,
    maximum_entries: usize,
}

impl Default for ReplayCache {
    fn default() -> (cache: Self)
        ensures
            cache.remembered() == Seq::<ReplayEntry>::empty(),
            cache.ttl() == DEFAULT_REPLAY_TTL_MS,
            cache.capacity() == MAX_REPLAY_ENTRIES,
    {
        let cache = ReplayCache {
            entries: Vec::new(),
            ttl_ms: DEFAULT_REPLAY_TTL_MS,
            maximum_entries: MAX_REPLAY_ENTRIES,
        };
        proof {
            assert(cache.remembered() =~= Seq::<ReplayEntry>::empty());
        }
        cache
    }
}

/// The outcome of `check_and_insert`.
pub open spec fn replay_check(
    entries: Seq<ReplayEntry>,
    capacity: usize,
    service_id: Seq<char>,
    nonce: Seq<u8>,
) -> Result<(), ErrorCode> {
    if nonce.len() != NONCE_SIZE {
        Err(ErrorCode::ProtocolViolation)
    } else if exists|i: int|
        0 <= i < entries.len() && (#[trigger] entries[i]).0 == service_id && entries[i].1
            == nonce {
        Err(ErrorCode::ReplayDetected)
    } else if entries.len() >= capacity {
        Err(ErrorCode::ResourceExhausted)
    } else {
        Ok(())
    }
}

impl ReplayCache {
    /// The remembered entries, oldest first.
    pub closed spec fn remembered(&self) -> Seq<ReplayEntry> {
        self.entries@.map_values(|e: (String, Vec<u8>, u64)| (e.0@, e.1@, e.2))
    }

    pub closed spec fn ttl(&self) -> u64 {
        self.ttl_ms
    }

    pub closed spec fn capacity(&self) -> usize {
        self.maximum_entries
    }

    /// Forgets expired entries, then records the nonce of `service_id` unless
    /// it is remembered already (a replay) or the cache is full.
    pub fn check_and_insert(&mut self, service_id: &str, nonce: &[u8], now_ms: u64) -> (result:
        Result<(), Error>)
        ensures
            final(self).ttl() == old(self).ttl(),
            final(self).capacity() == old(self).capacity(),
            ({
                let fresh = fresh_entries(old(self).remembered(), now_ms, old(self).ttl());
                &&& match (result, replay_check(fresh, old(self).capacity(), service_id@, nonce@)) {
                    (Ok(()), Ok(())) => true,
                    (Err(e), Err(code)) => e.code == code,
                    _ => false,
                }
                &&& final(self).remembered() == if nonce@.len() != NONCE_SIZE {
                    old(self).remembered()
                } else if result is Ok {
                    fresh.push((service_id@, nonce@, now_ms))
                } else {
                    fresh
                }
            }),
    {
        if nonce.len() != NONCE_SIZE {
            return Err(Error::new(ErrorCode::ProtocolViolation));
        }
        let ghost original = self.remembered();
        let ghost is_fresh = |e: ReplayEntry| replay_entry_fresh(e.2, now_ms, self.ttl_ms);
        let mut kept: Vec<(String, Vec<u8>, u64)> = Vec::new();
        let mut i: usize = 0;
        while i < self.entries.len()
            invariant
                i <= self.entries@.len(),
                original == self.entries@.map_values(|e: (String, Vec<u8>, u64)| (e.0@, e.1@, e.2)),
                is_fresh == (|e: ReplayEntry| replay_entry_fresh(e.2, now_ms, self.ttl_ms)),
                kept@.map_values(|e: (String, Vec<u8>, u64)| (e.0@, e.1@, e.2)) == original.take(
                    i as int,
                ).filter(is_fresh),
            decreases self.entries@.len() - i,
        {
            proof {
                reveal(Seq::filter);
                assert(original.take(i + 1).drop_last() =~= original.take(i as int));
            }
            let inserted = self.entries[i].2;
            if now_ms < inserted || now_ms - inserted <= self.ttl_ms {
                let ghost before = kept@;
                let entry = (self.entries[i].0.clone(), copy_nonce(&self.entries[i].1), inserted);
                kept.push(entry);
                proof {
                    assert(kept@.map_values(|e: (String, Vec<u8>, u64)| (e.0@, e.1@, e.2))
                        =~= before.map_values(|e: (String, Vec<u8>, u64)| (e.0@, e.1@, e.2)).push(
                        original[i as int],
                    ));
                }
            }
            i = i + 1;
        }
        proof {
            assert(original.take(self.entries@.len() as int) =~= original);
        }
        self.entries = kept;
        let ghost fresh = self.remembered();
        proof {
            assert(is_fresh == (|e: ReplayEntry| replay_entry_fresh(e.2, now_ms, old(self).ttl())));
        }
        let key = service_id.to_owned();
        let mut j: usize = 0;
        while j < self.entries.len()
            invariant
                j <= self.entries@.len(),
                nonce@.len() == NONCE_SIZE,
                fresh == self.remembered(),
                self.ttl_ms == old(self).ttl_ms,
                self.maximum_entries == old(self).maximum_entries,
                fresh == fresh_entries(old(self).remembered(), now_ms, old(self).ttl()),
                key@ == service_id@,
                forall|k: int|
                    0 <= k < j ==> !((#[trigger] fresh[k]).0 == service_id@ && fresh[k].1 == nonce@),
            decreases self.entries@.len() - j,
        {
            if self.entries[j].0 == key && crate::text::bytes_equal(
                self.entries[j].1.as_slice(),
                nonce,
            ) {
                proof {
                    assert(fresh[j as int].0 == service_id@ && fresh[j as int].1 == nonce@);
                }
                return Err(Error::new(ErrorCode::ReplayDetected));
            }
            j = j + 1;
        }
        if self.entries.len() >= self.maximum_entries {
            return Err(Error::new(ErrorCode::ResourceExhausted));
        }
        let ghost before = self.entries@;
        self.entries.push((key, copy_nonce_slice(nonce), now_ms));
        proof {
            assert(self.remembered() =~= fresh.push((service_id@, nonce@, now_ms)));
        }
        Ok(())
    }
}

fn copy_nonce(nonce: &Vec<u8>) -> (copy: Vec<u8>)
    ensures
        copy@ == nonce@,
{
    copy_nonce_slice(nonce.as_slice())
}

fn copy_nonce_slice(bytes: &[u8]) -> (copy: Vec<u8>)
    ensures
        copy@ == bytes@,
{
    let mut copy: Vec<u8> = Vec::new();
    let mut i: usize = 0;
    while i < bytes.len()
        invariant
            i <= bytes@.len(),
            copy@ == bytes@.subrange(0, i as int),
        decreases bytes@.len() - i,
    {
        copy.push(bytes[i]);
        proof {
            assert(bytes@.subrange(0, i + 1) =~= bytes@.subrange(0, i as int).push(bytes@[i as int]));
        }
        i = i + 1;
    }
    proof {
        assert(copy@ =~= bytes@);
    }
    copy
}

/// A nonce recorded at `inserted` is refused again for as long as it stays
/// remembered: replaying it within the TTL is detected.
pub proof fn lemma_replay_refused(
    entries: Seq<ReplayEntry>,
    capacity: usize,
    ttl: u64,
    service_id: Seq<char>,
    nonce: Seq<u8>,
    inserted: u64,
    now: u64,
)
    requires
        nonce.len() == NONCE_SIZE,
        inserted <= now,
        now - inserted <= ttl,
    ensures
        replay_check(
            fresh_entries(entries.push((service_id, nonce, inserted)), now, ttl),
            capacity,
            service_id,
            nonce,
        ) == Err::<(), ErrorCode>(ErrorCode::ReplayDetected),
{
    let pred = |e: ReplayEntry| replay_entry_fresh(e.2, now, ttl);
    let pushed = entries.push((service_id, nonce, inserted));
    reveal(Seq::filter);
    assert(pushed.drop_last() =~= entries);
    let fresh = fresh_entries(pushed, now, ttl);
    assert(fresh == entries.filter(pred).push((service_id, nonce, inserted)));
    let k = fresh.len() - 1;
    assert(fresh[k].0 == service_id && fresh[k].1 == nonce);
}


fn violation() -> (error: Error)
    ensures
        error.code == ErrorCode::ProtocolViolation,
{
    Error::new(ErrorCode::ProtocolViolation)
}

/// Decodes a canonical 32-bit length prefix; anything else is a protocol
/// violation.
pub fn decode_canonical_u32_varint(bytes: &[u8]) -> (result: Result<u32, Error>)
    ensures
        match result {
            Ok(value) => u32_prefix_result(bytes@) == Ok::<u32, crate::gateway::error::ProtocolError>(value),
            Err(e) => u32_prefix_result(bytes@) is Err && e.code == ErrorCode::ProtocolViolation,
        },
{
    match decode_prefix(bytes) {
        Ok(value) => Ok(value),
        Err(_) => Err(violation()),
    }
}

/// What `encode_frame` yields for an encoded frame body.
pub open spec fn frame_encoding_result(encoded: Seq<u8>, maximum: usize) -> Result<Seq<u8>, ErrorCode> {
    if maximum == 0 || maximum > ABSOLUTE_MAX_FRAME_SIZE {
        Err(ErrorCode::InvalidConfiguration)
    } else if encoded.len() == 0 || encoded.len() > maximum {
        Err(ErrorCode::ProtocolViolation)
    } else {
        Ok(varint_encoding(encoded.len()) + encoded)
    }
}

/// Prefixes an encoded frame with its canonical length.
pub fn encode_frame(encoded: &[u8], maximum: usize) -> (result: Result<Vec<u8>, Error>)
    ensures
        match (result, frame_encoding_result(encoded@, maximum)) {
            (Ok(out), Ok(expected)) => out@ == expected,
            (Err(e), Err(code)) => e.code == code,
            _ => false,
        },
{
    if maximum == 0 || maximum > ABSOLUTE_MAX_FRAME_SIZE {
        return Err(Error::new(ErrorCode::InvalidConfiguration));
    }
    let length = encoded.len();
    if length == 0 || length > maximum {
        return Err(violation());
    }
    let mut output: Vec<u8> = Vec::new();
    encode_u32_varint(length as u32, &mut output);
    let ghost head = output@;
    let mut i: usize = 0;
    while i < length
        invariant
            i <= length == encoded@.len(),
            output@ == head + encoded@.subrange(0, i as int),
        decreases length - i,
    {
        output.push(encoded[i]);
        proof {
            assert(encoded@.subrange(0, i + 1) =~= encoded@.subrange(0, i as int).push(encoded@[i as int]));
        }
        i = i + 1;
    }
    proof {
        assert(encoded@.subrange(0, length as int) =~= encoded@);
    }
    Ok(output)
}

/// Ping and pong nonces carry 8 to 32 bytes.
pub fn validate_ping(nonce: &[u8]) -> (result: Result<(), Error>)
    ensures
        result is Ok <==> 8 <= nonce@.len() <= 32,
        result matches Err(e) ==> e.code == ErrorCode::ProtocolViolation,
{
    if nonce.len() < 8 || nonce.len() > 32 {
        return Err(violation());
    }
    Ok(())
}

/// A wire version within 16-bit components.
pub open spec fn wire_version_fits(version: WireVersion) -> bool {
    version.major <= u16::MAX && version.minor <= u16::MAX
}

pub fn version_from_wire(version: &WireVersion) -> (result: Result<ProtocolVersion, Error>)
    ensures
        match result {
            Ok(v) => wire_version_fits(*version) && v.major == version.major && v.minor
                == version.minor,
            Err(e) => !wire_version_fits(*version) && e.code == ErrorCode::ProtocolViolation,
        },
{
    if version.major > 65535 || version.minor > 65535 {
        return Err(violation());
    }
    Ok(ProtocolVersion { major: version.major as u16, minor: version.minor as u16 })
}

pub fn version_to_wire(version: ProtocolVersion) -> (wire: WireVersion)
    ensures
        wire.major == version.major,
        wire.minor == version.minor,
{
    WireVersion { major: version.major as u32, minor: version.minor as u32 }
}

/// The version that `select_version` selects for a client's range.
pub open spec fn version_selection(hello: ClientHello, config: HandshakeConfig) -> Result<
    ProtocolVersion,
    ErrorCode,
> {
    if hello.minimum_version is None || !wire_version_fits(hello.minimum_version->0)
        || hello.maximum_version is None || !wire_version_fits(hello.maximum_version->0) {
        Err(ErrorCode::ProtocolViolation)
    } else {
        let minimum = ProtocolVersion {
            major: hello.minimum_version->0.major as u16,
            minor: hello.minimum_version->0.minor as u16,
        };
        let maximum = ProtocolVersion {
            major: hello.maximum_version->0.major as u16,
            minor: hello.maximum_version->0.minor as u16,
        };
        let lower = if version_le(config.minimum_version, minimum) {
            minimum
        } else {
            config.minimum_version
        };
        let upper = if version_le(maximum, config.maximum_version) {
            maximum
        } else {
            config.maximum_version
        };
        if minimum.major != maximum.major || minimum.major != config.minimum_version.major
            || !version_le(minimum, maximum) || !version_le(lower, upper) {
            Err(ErrorCode::ProtocolIncompatible)
        } else {
            Ok(upper)
        }
    }
}

/// The highest version both sides allow within one major version.
pub fn select_version(hello: &ClientHello, config: &HandshakeConfig) -> (result: Result<
    ProtocolVersion,
    Error,
>)
    ensures
        match (result, version_selection(*hello, *config)) {
            (Ok(v), Ok(expected)) => v == expected,
            (Err(e), Err(code)) => e.code == code,
            _ => false,
        },
{
    let minimum = match &hello.minimum_version {
        Some(v) => version_from_wire(v)?,
        None => return Err(violation()),
    };
    let maximum = match &hello.maximum_version {
        Some(v) => version_from_wire(v)?,
        None => return Err(violation()),
    };
    if minimum.major != maximum.major || minimum.major != config.minimum_version.major
        || !version_at_most(minimum, maximum) {
        return Err(Error::new(ErrorCode::ProtocolIncompatible));
    }
    let lower = if version_at_most(config.minimum_version, minimum) {
        minimum
    } else {
        config.minimum_version
    };
    let upper = if version_at_most(maximum, config.maximum_version) {
        maximum
    } else {
        config.maximum_version
    };
    if !version_at_most(lower, upper) {
        return Err(Error::new(ErrorCode::ProtocolIncompatible));
    }
    Ok(upper)
}

/// Whether an open-session request is acceptable at `now_unix_seconds`.
pub open spec fn open_session_valid(request: OpenSession, limits: ProtocolLimits, now: i64) -> bool {
    let ttl = (limits.maximum_session_ttl_ms / 1000) as int;
    let latest = if now + ttl > i64::MAX {
        i64::MAX as int
    } else {
        now + ttl
    };
    &&& request.session_id != 0
    &&& request.session_id % 2 == 1
    &&& 0 < request.initial_receive_window <= MAX_STREAM_WINDOW
    &&& request.expires_at_unix_seconds > now
    &&& request.expires_at_unix_seconds <= latest
    &&& request.terminal_protocol_version matches Some(v) && 0 < v.major <= u16::MAX && v.minor
        <= u16::MAX
}

pub fn validate_open_session(request: &OpenSession, limits: &ProtocolLimits, now_unix_seconds: i64) -> (result:
    Result<(), Error>)
    ensures
        result is Ok <==> open_session_valid(*request, *limits, now_unix_seconds),
        result matches Err(e) ==> e.code == ErrorCode::ProtocolViolation,
{
    let ttl = (limits.maximum_session_ttl_ms / 1000) as i64;
    let latest = if now_unix_seconds > i64::MAX - ttl {
        i64::MAX
    } else {
        now_unix_seconds + ttl
    };
    if request.session_id == 0 || request.session_id % 2 == 0 || request.initial_receive_window == 0
        || request.initial_receive_window as u64 > MAX_STREAM_WINDOW
        || request.expires_at_unix_seconds <= now_unix_seconds || request.expires_at_unix_seconds
        > latest {
        return Err(violation());
    }
    match request.terminal_protocol_version {
        Some(version) => {
            if version.major == 0 || version.major > 65535 || version.minor > 65535 {
                return Err(violation());
            }
        },
        None => return Err(violation()),
    }
    Ok(())
}

pub fn validate_service_id(value: &str) -> (result: Result<(), Error>)
    ensures
        result is Ok <==> service_id_valid(value@),
        result matches Err(e) ==> e.code == ErrorCode::ProtocolViolation,
{
    if !check_service_id(value) {
        return Err(violation());
    }
    Ok(())
}

pub fn validate_handshake_identity(identity: &PeerIdentity, role: GatewayRole) -> (result: Result<
    (),
    Error,
>)
    ensures
        result is Ok <==> identity.role == role && identity.purpose
            == IdentityPurpose::InterGatewayDataPlane,
        result matches Err(e) ==> e.code == ErrorCode::WrongRole,
{
    if identity.role != role || identity.purpose != IdentityPurpose::InterGatewayDataPlane {
        return Err(Error::new(ErrorCode::WrongRole));
    }
    Ok(())
}

/// A connection window the peer may announce.
pub open spec fn connection_window_valid(window: u32) -> bool {
    0 < window <= MAX_CONNECTION_WINDOW
}

/// A session window the peer may announce.
pub open spec fn session_window_valid(window: u32) -> bool {
    0 < window <= MAX_STREAM_WINDOW
}

/// The outcome of checking a client hello from `peer` at `now_unix_seconds`.
pub open spec fn client_hello_check(
    hello: ClientHello,
    peer: PeerIdentity,
    config: HandshakeConfig,
    now: u64,
) -> Result<(), ErrorCode> {
    if hello.service_id@ != peer.service_id@ || hello.role != 1 || hello.nonce@.len() != NONCE_SIZE
        || !connection_window_valid(hello.initial_connection_receive_window)
        || !session_window_valid(hello.initial_session_receive_window) || !service_id_valid(
        hello.service_id@,
    ) || hello.unix_seconds < 0 {
        Err(ErrorCode::ProtocolViolation)
    } else if (if now >= hello.unix_seconds {
        now - hello.unix_seconds
    } else {
        hello.unix_seconds - now
    }) > MAX_CLOCK_SKEW_SECONDS {
        Err(ErrorCode::ReplayDetected)
    } else {
        match version_selection(hello, config) {
            Ok(_) => Ok(()),
            Err(code) => Err(code),
        }
    }
}

pub fn validate_client_hello(
    hello: &ClientHello,
    peer: &PeerIdentity,
    config: &HandshakeConfig,
    now_unix_seconds: u64,
) -> (result: Result<(), Error>)
    ensures
        match (result, client_hello_check(*hello, *peer, *config, now_unix_seconds)) {
            (Ok(()), Ok(())) => true,
            (Err(e), Err(code)) => e.code == code,
            _ => false,
        },
{
    if !(hello.service_id == peer.service_id) || hello.role != 1 || hello.nonce.len() != NONCE_SIZE
        || hello.initial_connection_receive_window == 0
        || hello.initial_connection_receive_window as u64 > MAX_CONNECTION_WINDOW
        || hello.initial_session_receive_window == 0 || hello.initial_session_receive_window as u64
        > MAX_STREAM_WINDOW {
        return Err(violation());
    }
    validate_service_id(hello.service_id.as_str())?;
    if hello.unix_seconds < 0 {
        return Err(violation());
    }
    let sent = hello.unix_seconds as u64;
    let skew = if now_unix_seconds >= sent {
        now_unix_seconds - sent
    } else {
        sent - now_unix_seconds
    };
    if skew > MAX_CLOCK_SKEW_SECONDS {
        return Err(Error::new(ErrorCode::ReplayDetected));
    }
    select_version(hello, config)?;
    Ok(())
}

/// Whether a server hello answers `client` as the configuration requires.
pub open spec fn server_hello_valid(
    server: ServerHello,
    peer: PeerIdentity,
    client: ClientHello,
    config: HandshakeConfig,
) -> bool {
    &&& server.selected_version matches Some(v) && wire_version_fits(v) && {
        let selected = ProtocolVersion { major: v.major as u16, minor: v.minor as u16 };
        &&& version_le(config.minimum_version, selected)
        &&& selected == config.maximum_version
    }
    &&& server.service_id@ == peer.service_id@
    &&& server.role == 2
    &&& server.echoed_client_nonce@ == client.nonce@
    &&& server.server_nonce@.len() == NONCE_SIZE
    &&& server.connection_id@.len() == CONNECTION_ID_SIZE
    &&& server.maximum_concurrent_sessions != 0
    &&& connection_window_valid(server.initial_connection_receive_window)
    &&& session_window_valid(server.initial_session_receive_window)
    &&& service_id_valid(server.service_id@)
}

pub fn validate_server_hello(
    server: &ServerHello,
    peer: &PeerIdentity,
    client: &ClientHello,
    config: &HandshakeConfig,
) -> (result: Result<(), Error>)
    ensures
        result is Ok <==> server_hello_valid(*server, *peer, *client, *config),
        result matches Err(e) ==> e.code == ErrorCode::ProtocolViolation,
{
    let selected = match &server.selected_version {
        Some(v) => version_from_wire(v)?,
        None => return Err(violation()),
    };
    if !(server.service_id == peer.service_id) || server.role != 2 || !crate::text::bytes_equal(
        server.echoed_client_nonce.as_slice(),
        client.nonce.as_slice(),
    ) || server.server_nonce.len() != NONCE_SIZE || server.connection_id.len()
        != CONNECTION_ID_SIZE || !version_at_most(config.minimum_version, selected)
        || !version_at_most(selected, config.maximum_version) || selected.major
        != config.maximum_version.major || selected.minor != config.maximum_version.minor
        || server.maximum_concurrent_sessions == 0 || server.initial_connection_receive_window == 0
        || server.initial_connection_receive_window as u64 > MAX_CONNECTION_WINDOW
        || server.initial_session_receive_window == 0 || server.initial_session_receive_window
        as u64 > MAX_STREAM_WINDOW {
        return Err(violation());
    }
    validate_service_id(server.service_id.as_str())
}

/// Whether a frame carries the expected sequence, connection ID and version.
pub open spec fn active_envelope_valid(
    frame: InterGatewayFrame,
    sequence: u64,
    version: ProtocolVersion,
    connection_id: Seq<u8>,
) -> bool {
    &&& frame.sequence == sequence
    &&& frame.connection_id@ == connection_id
    &&& frame.version matches Some(v) && v.major == version.major && v.minor == version.minor
}

pub fn validate_active_envelope(
    frame: &InterGatewayFrame,
    sequence: u64,
    version: ProtocolVersion,
    connection_id: &[u8; CONNECTION_ID_SIZE],
) -> (result: Result<(), Error>)
    ensures
        result is Ok <==> active_envelope_valid(*frame, sequence, version, connection_id@),
        result matches Err(e) ==> e.code == ErrorCode::ProtocolViolation,
{
    let matches_version = match &frame.version {
        Some(v) => {
            let converted = version_from_wire(v)?;
            converted.major == version.major && converted.minor == version.minor
        },
        None => false,
    };
    if frame.sequence != sequence || !crate::text::bytes_equal(
        frame.connection_id.as_slice(),
        connection_id.as_slice(),
    ) || !matches_version {
        return Err(violation());
    }
    Ok(())
}

/// The outcome of checking a peer's Finished frame against the binding it
/// must carry.
pub open spec fn finished_check(
    frame: InterGatewayFrame,
    sequence: u64,
    version: ProtocolVersion,
    connection_id: Seq<u8>,
    expected: Seq<u8>,
) -> Result<(), ErrorCode> {
    if !active_envelope_valid(frame, sequence, version, connection_id) {
        Err(ErrorCode::ProtocolViolation)
    } else {
        match frame.body {
            Some(Body::Finished(finished)) => if finished.exporter_binding@ == expected {
                Ok(())
            } else {
                Err(ErrorCode::ReplayDetected)
            },
            _ => Err(ErrorCode::ProtocolViolation),
        }
    }
}

pub fn validate_finished_frame(
    frame: &InterGatewayFrame,
    sequence: u64,
    version: ProtocolVersion,
    connection_id: &[u8; CONNECTION_ID_SIZE],
    expected: &[u8; BINDING_SIZE],
) -> (result: Result<(), Error>)
    ensures
        match (result, finished_check(*frame, sequence, version, connection_id@, expected@)) {
            (Ok(()), Ok(())) => true,
            (Err(e), Err(code)) => e.code == code,
            _ => false,
        },
{
    validate_active_envelope(frame, sequence, version, connection_id)?;
    match &frame.body {
        Some(Body::Finished(finished)) => {
            if !crate::text::bytes_equal(finished.exporter_binding.as_slice(), expected.as_slice()) {
                return Err(Error::new(ErrorCode::ReplayDetected));
            }
            Ok(())
        },
        _ => Err(violation()),
    }
}

/// Whether a frame about to be sent, of `encoded_length` encoded bytes, is
/// well formed for the handshake or the active phase.
pub open spec fn outbound_frame_valid(
    frame: InterGatewayFrame,
    handshake: bool,
    limits: ProtocolLimits,
    encoded_length: usize,
) -> bool {
    &&& frame.sequence != 0
    &&& frame.version is Some
    &&& frame.body is Some
    &&& if handshake {
        frame.connection_id@.len() <= CONNECTION_ID_SIZE
    } else {
        frame.connection_id@.len() == CONNECTION_ID_SIZE
    }
    &&& encoded_length <= limits.maximum_frame_size
}

pub fn validate_frame(
    frame: &InterGatewayFrame,
    handshake: bool,
    limits: &ProtocolLimits,
    encoded_length: usize,
) -> (result: Result<(), Error>)
    ensures
        result is Ok <==> outbound_frame_valid(*frame, handshake, *limits, encoded_length),
        result matches Err(e) ==> e.code == ErrorCode::ProtocolViolation,
{
    if frame.sequence == 0 || frame.version.is_none() || frame.body.is_none() {
        return Err(violation());
    }
    if handshake {
        if frame.connection_id.len() > CONNECTION_ID_SIZE {
            return Err(violation());
        }
    } else if frame.connection_id.len() != CONNECTION_ID_SIZE {
        return Err(violation());
    }
    if encoded_length > limits.maximum_frame_size {
        return Err(violation());
    }
    Ok(())
}

} // verus!
