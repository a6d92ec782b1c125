//! Strict daemon limits and their safety validation. Durations are held in
//! milliseconds or seconds, as their field names say.
use vstd::prelude::*;

use crate::daemon::acl::AclConfig;
use crate::daemon::dns::IpAddress;
use crate::daemon::error::{GatewayError, GatewayErrorCode};
use crate::text::{bytes_of_string, is_alphanumeric_byte, is_ascii_alphanumeric, text_bytes};

verus! {

/// Certificate and key locations for the management listener's TLS.
#[derive(Clone, Debug)]
pub struct TlsConfig {
    pub certificate_chain: String,
    pub private_key: String,
}

#[derive(Clone, Copy, Debug)]
pub struct LimitConfig {
    pub max_connections: usize,
    pub listen_backlog: u32,
    pub max_sessions: usize,
    pub max_token_states: usize,
    pub max_sessions_per_token: usize,
    pub max_streams_global: usize,
    pub max_streams_per_session: usize,
    pub max_streams_per_token: usize,
    pub connection_rate_per_second: u32,
    pub connection_rate_burst: u32,
    pub bandwidth_bytes_per_second: u64,
    pub bandwidth_burst_bytes: u64,
    pub token_byte_quota: u64,
    pub max_frame_bytes: usize,
    pub max_data_bytes: usize,
    pub max_token_bytes: usize,
    pub max_proof_bytes: usize,
    pub max_stream_window: usize,
    pub initial_stream_window: usize,
    pub outbound_event_queue: usize,
    pub handshake_timeout_ms: u64,
    pub auth_timeout_ms: u64,
    pub connect_timeout_ms: u64,
    pub io_timeout_ms: u64,
    pub session_ttl_seconds: u64,
    pub scan_window_seconds: u64,
    pub scan_distinct_destination_limit: usize,
    pub circuit_failure_threshold: u32,
    pub circuit_cooldown_seconds: u64,
}

/// The counts of `LimitConfig` are positive and consistently ordered.
pub open spec fn limit_counts_valid(c: LimitConfig) -> bool {
    &&& 0 < c.max_connections <= 65536
    &&& 0 < c.listen_backlog <= 65535
    &&& 0 < c.max_sessions <= c.max_connections
    &&& c.max_sessions <= c.max_token_states <= 1000000
    &&& 0 < c.max_sessions_per_token <= c.max_sessions
    &&& c.max_streams_global > 0
    &&& 0 < c.max_streams_per_session <= 4096
    &&& c.max_streams_per_token >= c.max_streams_per_session
    &&& c.connection_rate_per_second > 0
    &&& c.connection_rate_burst >= c.connection_rate_per_second
    &&& c.bandwidth_bytes_per_second > 0
    &&& c.bandwidth_burst_bytes > 0
    &&& c.token_byte_quota >= c.bandwidth_burst_bytes
}

/// The protocol limits of `LimitConfig` stay within the wire's hard bounds.
pub open spec fn limit_protocol_valid(c: LimitConfig) -> bool {
    &&& c.max_frame_bytes == 65536
    &&& 0 < c.max_data_bytes <= 32768
    &&& c.max_token_bytes <= 4096
    &&& c.max_proof_bytes <= 4096
    &&& 0 < c.initial_stream_window <= c.max_stream_window
    &&& c.max_stream_window <= 4194304
    &&& 0 < c.outbound_event_queue <= 16384
}

/// The durations of `LimitConfig` are positive and bounded where required.
pub open spec fn limit_times_valid(c: LimitConfig) -> bool {
    &&& c.handshake_timeout_ms > 0
    &&& c.auth_timeout_ms > 0
    &&& c.connect_timeout_ms > 0
    &&& c.io_timeout_ms > 0
    &&& 0 < c.session_ttl_seconds <= 86400
    &&& c.scan_window_seconds > 0
    &&& c.scan_distinct_destination_limit > 0
    &&& c.circuit_failure_threshold > 0
    &&& c.circuit_cooldown_seconds > 0
}

pub open spec fn limit_config_valid(c: LimitConfig) -> bool {
    limit_counts_valid(c) && limit_protocol_valid(c) && limit_times_valid(c)
}

impl Default for LimitConfig {
    fn default() -> (config: Self)
        ensures
            config.max_connections == 1024,
            config.listen_backlog == 256,
            config.max_sessions == 1024,
            config.max_token_states == 4096,
            config.max_sessions_per_token == 2,
            config.max_streams_global == 16384,
            config.max_streams_per_session == 128,
            config.max_streams_per_token == 256,
            config.connection_rate_per_second == 16,
            config.connection_rate_burst == 32,
            config.bandwidth_bytes_per_second == 8388608,
            config.bandwidth_burst_bytes == 2097152,
            config.token_byte_quota == 4294967296,
            config.max_frame_bytes == 65536,
            config.max_data_bytes == 32768,
            config.max_token_bytes == 4096,
            config.max_proof_bytes == 4096,
            config.max_stream_window == 4194304,
            config.initial_stream_window == 262144,
            config.outbound_event_queue == 256,
            config.handshake_timeout_ms == 10000,
            config.auth_timeout_ms == 3000,
            config.connect_timeout_ms == 10000,
            config.io_timeout_ms == 120000,
            config.session_ttl_seconds == 900,
            config.scan_window_seconds == 60,
            config.scan_distinct_destination_limit == 64,
            config.circuit_failure_threshold == 32,
            config.circuit_cooldown_seconds == 30,
            limit_config_valid(config),
    {
        LimitConfig {
            max_connections: 1024,
            listen_backlog: 256,
            max_sessions: 1024,
            max_token_states: 4096,
            max_sessions_per_token: 2,
            max_streams_global: 16384,
            max_streams_per_session: 128,
            max_streams_per_token: 256,
            connection_rate_per_second: 16,
            connection_rate_burst: 32,
            bandwidth_bytes_per_second: 8388608,
            bandwidth_burst_bytes: 2097152,
            token_byte_quota: 4294967296,
            max_frame_bytes: 65536,
            max_data_bytes: 32768,
            max_token_bytes: 4096,
            max_proof_bytes: 4096,
            max_stream_window: 4194304,
            initial_stream_window: 262144,
            outbound_event_queue: 256,
            handshake_timeout_ms: 10000,
            auth_timeout_ms: 3000,
            connect_timeout_ms: 10000,
            io_timeout_ms: 120000,
            session_ttl_seconds: 900,
            scan_window_seconds: 60,
            scan_distinct_destination_limit: 64,
            circuit_failure_threshold: 32,
            circuit_cooldown_seconds: 30,
        }
    }
}

impl LimitConfig {
    pub fn validate(&self) -> (result: Result<(), GatewayError>)
        ensures
            result is Ok <==> limit_config_valid(*self),
            result matches Err(e) ==> e.code == GatewayErrorCode::InvalidConfiguration,
    {
        let counts_valid = self.max_connections > 0 && self.max_connections <= 65536
            && self.listen_backlog > 0 && self.listen_backlog <= 65535 && self.max_sessions > 0
            && self.max_sessions <= self.max_connections && self.max_token_states
            >= self.max_sessions && self.max_token_states <= 1000000
            && self.max_sessions_per_token > 0 && self.max_sessions_per_token <= self.max_sessions
            && self.max_streams_global > 0 && self.max_streams_per_session > 0
            && self.max_streams_per_session <= 4096 && self.max_streams_per_token
            >= self.max_streams_per_session && self.connection_rate_per_second > 0
            && self.connection_rate_burst >= self.connection_rate_per_second
            && self.bandwidth_bytes_per_second > 0 && self.bandwidth_burst_bytes > 0
            && self.token_byte_quota >= self.bandwidth_burst_bytes;
        let protocol_valid = self.max_frame_bytes == 65536 && self.max_data_bytes > 0
            && self.max_data_bytes <= 32768 && self.max_token_bytes <= 4096 && self.max_proof_bytes
            <= 4096 && self.initial_stream_window > 0 && self.initial_stream_window
            <= self.max_stream_window && self.max_stream_window <= 4194304
            && self.outbound_event_queue > 0 && self.outbound_event_queue <= 16384;
        let times_valid = self.handshake_timeout_ms > 0 && self.auth_timeout_ms > 0
            && self.connect_timeout_ms > 0 && self.io_timeout_ms > 0 && self.session_ttl_seconds
            > 0 && self.session_ttl_seconds <= 86400 && self.scan_window_seconds > 0
            && self.scan_distinct_destination_limit > 0 && self.circuit_failure_threshold > 0
            && self.circuit_cooldown_seconds > 0;
        if !(counts_valid && protocol_valid && times_valid) {
            return Err(GatewayError::new(GatewayErrorCode::InvalidConfiguration));
        }
        Ok(())
    }

    /// The handshake deadline, in milliseconds.
    pub fn handshake_timeout(&self) -> (ms: u64)
        ensures
            ms == self.handshake_timeout_ms,
    {
        self.handshake_timeout_ms
    }

    /// The authentication deadline, in milliseconds.
    pub fn auth_timeout(&self) -> (ms: u64)
        ensures
            ms == self.auth_timeout_ms,
    {
        self.auth_timeout_ms
    }

    /// The egress connect deadline, in milliseconds.
    pub fn connect_timeout(&self) -> (ms: u64)
        ensures
            ms == self.connect_timeout_ms,
    {
        self.connect_timeout_ms
    }

    /// The idle I/O deadline, in milliseconds.
    pub fn io_timeout(&self) -> (ms: u64)
        ensures
            ms == self.io_timeout_ms,
    {
        self.io_timeout_ms
    }
}

#[derive(Clone, Debug)]
pub struct PrivacyEventConfig {
    pub enabled: bool,
    pub ttl_seconds: u64,
    pub capacity: usize,
    pub coarse_bucket_seconds: u64,
}

pub open spec fn privacy_event_config_valid(c: PrivacyEventConfig) -> bool {
    &&& 0 < c.ttl_seconds <= 86400
    &&& 0 < c.capacity <= 1000000
    &&& 60 <= c.coarse_bucket_seconds <= 3600
}

impl Default for PrivacyEventConfig {
    fn default() -> (config: Self)
        ensures
            config.enabled,
            config.ttl_seconds == 900,
            config.capacity == 4096,
            config.coarse_bucket_seconds == 300,
            privacy_event_config_valid(config),
    {
        PrivacyEventConfig { enabled: true, ttl_seconds: 900, capacity: 4096, coarse_bucket_seconds: 300 }
    }
}

impl PrivacyEventConfig {
    pub fn validate(&self) -> (result: Result<(), GatewayError>)
        ensures
            result is Ok <==> privacy_event_config_valid(*self),
            result matches Err(e) ==> e.code == GatewayErrorCode::InvalidConfiguration,
    {
        if self.ttl_seconds == 0 || self.ttl_seconds > 86400 || self.capacity == 0 || self.capacity
            > 1000000 || self.coarse_bucket_seconds < 60 || self.coarse_bucket_seconds > 3600 {
            return Err(GatewayError::new(GatewayErrorCode::InvalidConfiguration));
        }
        Ok(())
    }
}

/// A listening or upstream socket address.
#[derive(Clone, Copy, Debug, PartialEq, Eq)]
pub struct SocketAddress {
    pub ip: IpAddress,
    pub port: u16,
}

pub open spec fn is_loopback(ip: IpAddress) -> bool {
    match ip {
        IpAddress::V4(o) => o[0] == 127,
        IpAddress::V6(o) => (forall|i: int| 0 <= i < 15 ==> o[i] == 0) && o[15] == 1,
    }
}

pub open spec fn all_zero(s: Seq<u8>) -> bool {
    forall|i: int| 0 <= i < s.len() ==> s[i] == 0
}

pub open spec fn is_unspecified(ip: IpAddress) -> bool {
    match ip {
        IpAddress::V4(o) => all_zero(o@),
        IpAddress::V6(o) => all_zero(o@),
    }
}

pub open spec fn is_multicast(ip: IpAddress) -> bool {
    match ip {
        IpAddress::V4(o) => 224 <= o[0] <= 239,
        IpAddress::V6(o) => o[0] == 255,
    }
}

/// Whether an address is a loopback address.
pub fn loopback(ip: &IpAddress) -> (result: bool)
    ensures
        result == is_loopback(*ip),
{
    match ip {
        IpAddress::V4(o) => o[0] == 127,
        IpAddress::V6(o) => {
            let mut i: usize = 0;
            while i < 15
                invariant
                    *ip == IpAddress::V6(*o),
                    i <= 15,
                    forall|k: int| 0 <= k < i ==> o[k] == 0,
                decreases 15 - i,
            {
                if o[i] != 0 {
                    assert(o[i as int] != 0);
                    return false;
                }
                i = i + 1;
            }
            o[15] == 1
        },
    }
}

fn unspecified(ip: &IpAddress) -> (result: bool)
    ensures
        result == is_unspecified(*ip),
{
    let o: &[u8] = match ip {
        IpAddress::V4(o) => o.as_slice(),
        IpAddress::V6(o) => o.as_slice(),
    };
    let mut i: usize = 0;
    while i < o.len()
        invariant
            is_unspecified(*ip) == all_zero(o@),
            i <= o@.len(),
            forall|k: int| 0 <= k < i ==> o@[k] == 0,
        decreases o@.len() - i,
    {
        if o[i] != 0 {
            return false;
        }
        i = i + 1;
    }
    true
}

fn multicast(ip: &IpAddress) -> (result: bool)
    ensures
        result == is_multicast(*ip),
{
    match ip {
        IpAddress::V4(o) => o[0] >= 224 && o[0] <= 239,
        IpAddress::V6(o) => o[0] == 255,
    }
}

/// Listeners may bind loopback addresses only; anything else is
/// `InvalidConfiguration`.
pub fn check_listener_address(address: &SocketAddress) -> (result: Result<(), GatewayError>)
    ensures
        result is Ok <==> is_loopback(address.ip),
        result matches Err(e) ==> e.code == GatewayErrorCode::InvalidConfiguration,
{
    if !loopback(&address.ip) {
        return Err(GatewayError::new(GatewayErrorCode::InvalidConfiguration));
    }
    Ok(())
}

fn same_socket(a: &SocketAddress, b: &SocketAddress) -> (same: bool)
    ensures
        same == (a.ip == b.ip && a.port == b.port),
{
    if a.port != b.port {
        return false;
    }
    match (a.ip, b.ip) {
        (IpAddress::V4(x), IpAddress::V4(y)) => {
            let same = x[0] == y[0] && x[1] == y[1] && x[2] == y[2] && x[3] == y[3];
            proof {
                if same {
                    assert(x =~= y);
                }
            }
            same
        },
        (IpAddress::V6(x), IpAddress::V6(y)) => {
            let mut i: usize = 0;
            while i < 16
                invariant
                    a.ip == IpAddress::V6(x),
                    b.ip == IpAddress::V6(y),
                    i <= 16,
                    forall|k: int| 0 <= k < i ==> x[k] == y[k],
                decreases 16 - i,
            {
                if x[i] != y[i] {
                    assert(x[i as int] != y[i as int]);
                    return false;
                }
                i = i + 1;
            }
            assert(x =~= y);
            true
        },
        _ => false,
    }
}

/// The upstream resolvers and the bounds on their answers.
#[derive(Clone, Debug)]
pub struct DnsConfig {
    pub upstreams: Vec<SocketAddress>,
    pub query_timeout_ms: u64,
    pub max_response_bytes: usize,
    pub max_records: usize,
    pub max_cname_depth: usize,
    pub max_addresses: usize,
    pub revalidate: bool,
}

impl Default for DnsConfig {
    /// No upstream: an explicit resolver inside the egress namespace is
    /// required.
    fn default() -> (config: Self)
        ensures
            config.upstreams@.len() == 0,
            config.query_timeout_ms == 3000,
            config.max_response_bytes == 16 * 1024,
            config.max_records == 64,
            config.max_cname_depth == 8,
            config.max_addresses == 16,
            config.revalidate,
    {
        DnsConfig {
            upstreams: Vec::new(),
            query_timeout_ms: 3000,
            max_response_bytes: 16 * 1024,
            max_records: 64,
            max_cname_depth: 8,
            max_addresses: 16,
            revalidate: true,
        }
    }
}

/// An upstream resolver must name a port and a unicast, specified address.
pub open spec fn upstream_valid(upstream: SocketAddress) -> bool {
    upstream.port != 0 && !is_unspecified(upstream.ip) && !is_multicast(upstream.ip)
}

pub open spec fn dns_config_valid(c: DnsConfig) -> bool {
    &&& 1 <= c.upstreams@.len() <= 4
    &&& 0 < c.query_timeout_ms <= 30000
    &&& 512 <= c.max_response_bytes <= 65535
    &&& 1 <= c.max_records <= 256
    &&& 1 <= c.max_cname_depth <= 16
    &&& 1 <= c.max_addresses <= 64
    &&& forall|i: int| 0 <= i < c.upstreams@.len() ==> upstream_valid(#[trigger] c.upstreams@[i])
}

impl DnsConfig {
    pub fn validate(&self) -> (result: Result<(), GatewayError>)
        ensures
            result is Ok <==> dns_config_valid(*self),
            result matches Err(e) ==> e.code == GatewayErrorCode::InvalidConfiguration,
    {
        if self.upstreams.len() == 0 || self.upstreams.len() > 4 || self.query_timeout_ms == 0
            || self.query_timeout_ms > 30000 || self.max_response_bytes < 512
            || self.max_response_bytes > 65535 || self.max_records == 0 || self.max_records > 256
            || self.max_cname_depth == 0 || self.max_cname_depth > 16 || self.max_addresses == 0
            || self.max_addresses > 64 {
            return Err(GatewayError::new(GatewayErrorCode::InvalidConfiguration));
        }
        let mut i: usize = 0;
        while i < self.upstreams.len()
            invariant
                i <= self.upstreams@.len(),
                forall|k: int| 0 <= k < i ==> upstream_valid(#[trigger] self.upstreams@[k]),
            decreases self.upstreams@.len() - i,
        {
            let upstream = &self.upstreams[i];
            if upstream.port == 0 || unspecified(&upstream.ip) || multicast(&upstream.ip) {
                return Err(GatewayError::new(GatewayErrorCode::InvalidConfiguration));
            }
            i = i + 1;
        }
        Ok(())
    }

    /// The per-query deadline, in milliseconds.
    pub fn timeout(&self) -> (ms: u64)
        ensures
            ms == self.query_timeout_ms,
    {
        self.query_timeout_ms
    }
}

impl Default for TlsConfig {
    fn default() -> (config: Self)
        ensures
            config.certificate_chain@ == "/etc/onionroute-gateway/tls/server.crt"@,
            config.private_key@ == "/etc/onionroute-gateway/tls/server.key"@,
    {
        TlsConfig {
            certificate_chain: "/etc/onionroute-gateway/tls/server.crt".to_owned(),
            private_key: "/etc/onionroute-gateway/tls/server.key".to_owned(),
        }
    }
}

/// The complete daemon configuration.
#[derive(Clone, Debug)]
pub struct GatewayConfig {
    pub gateway_id: String,
    pub onion_listener: SocketAddress,
    pub management_listener: SocketAddress,
    pub tls: TlsConfig,
    pub dns: DnsConfig,
    pub acl: AclConfig,
    pub limits: LimitConfig,
    pub privacy_events: PrivacyEventConfig,
    pub drain_grace_seconds: u64,
}

impl Default for GatewayConfig {
    /// Loopback listeners on ports 8443 (onion) and 9090 (management), no
    /// upstream resolver, and a placeholder gateway id.
    fn default() -> (config: Self)
        ensures
            config.gateway_id@ == "replace-with-catalog-gateway-id"@,
            config.onion_listener == (SocketAddress { ip: IpAddress::V4([127u8, 0, 0, 1]), port: 8443 }),
            config.management_listener == (SocketAddress { ip: IpAddress::V4([127u8, 0, 0, 1]), port: 9090 }),
            config.dns.upstreams@.len() == 0,
            config.drain_grace_seconds == 300,
    {
        GatewayConfig {
            gateway_id: "replace-with-catalog-gateway-id".to_owned(),
            onion_listener: SocketAddress { ip: IpAddress::V4([127u8, 0, 0, 1]), port: 8443 },
            management_listener: SocketAddress { ip: IpAddress::V4([127u8, 0, 0, 1]), port: 9090 },
            tls: TlsConfig::default(),
            dns: DnsConfig::default(),
            acl: AclConfig::default(),
            limits: LimitConfig::default(),
            privacy_events: PrivacyEventConfig::default(),
            drain_grace_seconds: 300,
        }
    }
}

/// A gateway id is 1 to 64 ASCII letters, digits and hyphens.
pub open spec fn gateway_id_valid(id: Seq<u8>) -> bool {
    1 <= id.len() <= 64 && forall|i: int| 0 <= i < id.len() ==> is_ascii_alphanumeric(#[trigger] id[i]) || id[i] == 45
}

/// The whole configuration is safe to run.
pub open spec fn gateway_config_valid(c: GatewayConfig) -> bool {
    &&& gateway_id_valid(text_bytes(c.gateway_id))
    &&& is_loopback(c.onion_listener.ip)
    &&& is_loopback(c.management_listener.ip)
    &&& c.onion_listener != c.management_listener
    &&& c.tls.certificate_chain@.len() > 0
    &&& c.tls.private_key@.len() > 0
    &&& dns_config_valid(c.dns)
    &&& c.acl.valid()
    &&& limit_config_valid(c.limits)
    &&& privacy_event_config_valid(c.privacy_events)
    &&& c.dns.max_response_bytes + 1024 <= c.limits.max_frame_bytes || (c.limits.max_frame_bytes < 1024
        && c.dns.max_response_bytes == 0)
    &&& 0 < c.drain_grace_seconds <= 86400
}

impl GatewayConfig {
    /// Checks everything at once; any unsafe setting is
    /// `InvalidConfiguration`.
    pub fn validate(&self) -> (result: Result<(), GatewayError>)
        ensures
            result is Ok <==> gateway_config_valid(*self),
            result matches Err(e) ==> e.code == GatewayErrorCode::InvalidConfiguration,
    {
        let id = bytes_of_string(&self.gateway_id);
        if id.len() == 0 || id.len() > 64 {
            return Err(GatewayError::new(GatewayErrorCode::InvalidConfiguration));
        }
        let mut i: usize = 0;
        while i < id.len()
            invariant
                i <= id@.len(),
                id@ == text_bytes(self.gateway_id),
                forall|k: int| 0 <= k < i ==> is_ascii_alphanumeric(#[trigger] id@[k]) || id@[k] == 45,
            decreases id@.len() - i,
        {
            if !is_alphanumeric_byte(id[i]) && id[i] != 45 {
                return Err(GatewayError::new(GatewayErrorCode::InvalidConfiguration));
            }
            i = i + 1;
        }
        if !loopback(&self.onion_listener.ip) || !loopback(&self.management_listener.ip)
            || same_socket(&self.onion_listener, &self.management_listener)
            || self.tls.certificate_chain.unicode_len() == 0 || self.tls.private_key.unicode_len() == 0 {
            return Err(GatewayError::new(GatewayErrorCode::InvalidConfiguration));
        }
        self.dns.validate()?;
        self.acl.validate()?;
        self.limits.validate()?;
        self.privacy_events.validate()?;
        let frame_room = if self.limits.max_frame_bytes >= 1024 {
            self.limits.max_frame_bytes - 1024
        } else {
            0
        };
        if self.dns.max_response_bytes > frame_room {
            return Err(GatewayError::new(GatewayErrorCode::InvalidConfiguration));
        }
        if self.drain_grace_seconds == 0 || self.drain_grace_seconds > 86400 {
            return Err(GatewayError::new(GatewayErrorCode::InvalidConfiguration));
        }
        Ok(())
    }
}

} // verus!
