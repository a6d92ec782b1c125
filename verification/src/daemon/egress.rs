//! The policy-checked TCP egress decisions.
//!
//! Opening an egress stream follows a fixed order: session and destination
//! policy, the stream reservation (with the token's rate limiter), the
//! circuit breaker, DNS resolution, then every resolved address is checked
//! again right before it is dialed. Resolution and dialing are the caller's;
//! the connector decides every step and keeps the metrics and events.
use vstd::prelude::*;

use crate::address::same_address;
use crate::daemon::acl::{AclEngine, Destination, policy_denied};
use crate::daemon::dns::IpAddress;
use crate::daemon::error::{GatewayError, GatewayErrorCode};
use crate::daemon::health::{event_recorded, Metric, Metrics, PrivacyEventBuffer, PrivacyEventKind, metric_index, counter_after};
use crate::daemon::rate_limit::CircuitBreaker;
use crate::daemon::session::{SessionLease, SessionManager, StreamLease};
use crate::text::{append_bytes, be16, be16_bytes, bytes_of_string, text_bytes};

verus! {

/// The bytes a destination contributes to scan detection: the hostname or
/// the address octets, then the port in big-endian order.
pub open spec fn scan_material_of(destination: Destination, port: u16) -> Seq<u8> {
    match destination {
        Destination::Hostname(h) => text_bytes(h) + be16(port),
        Destination::Ip(IpAddress::V4(o)) => o@ + be16(port),
        Destination::Ip(IpAddress::V6(o)) => o@ + be16(port),
    }
}

pub fn scan_material(destination: &Destination, port: u16) -> (material: Vec<u8>)
    ensures
        material@ == scan_material_of(*destination, port),
{
    let mut material: Vec<u8> = Vec::new();
    match destination {
        Destination::Hostname(h) => append_bytes(&mut material, bytes_of_string(h)),
        Destination::Ip(IpAddress::V4(o)) => append_bytes(&mut material, o),
        Destination::Ip(IpAddress::V6(o)) => append_bytes(&mut material, o),
    }
    let port_bytes = be16_bytes(port);
    append_bytes(&mut material, &port_bytes);
    proof {
        assert(material@ =~= scan_material_of(*destination, port));
    }
    material
}

/// The metric a refused reservation counts toward.
pub open spec fn reservation_metric(code: GatewayErrorCode) -> Metric {
    match code {
        GatewayErrorCode::Draining => Metric::DrainingRejections,
        GatewayErrorCode::PolicyDenied => Metric::PolicyViolations,
        _ => Metric::RateLimitViolations,
    }
}

/// What a dial attempt came to.
pub enum DialOutcome {
    Connected,
    Failed(GatewayError),
    TimedOut,
}

/// The next step of an egress attempt.
pub enum DialStep {
    /// Dial this address and port, within the connect timeout.
    Dial(IpAddress, u16),
    /// The address failed the policy check: stop with this error.
    Denied(GatewayError),
    /// Every address failed: stop with this error.
    Exhausted(GatewayError),
}

/// The addresses still to try for one egress open.
pub struct EgressAttempt {
    addresses: Vec<IpAddress>,
    next: usize,
    port: u16,
    last_error: GatewayError,
    infrastructure_failure: bool,
    handle: [u8; 8],
}

impl EgressAttempt {
    pub closed spec fn remaining(&self) -> Seq<IpAddress> {
        self.addresses@.skip(self.next as int)
    }

    pub closed spec fn last_error_spec(&self) -> GatewayError {
        self.last_error
    }

    pub closed spec fn infrastructure_failed(&self) -> bool {
        self.infrastructure_failure
    }

    pub closed spec fn port_spec(&self) -> u16 {
        self.port
    }

    /// The session handle events about this attempt carry.
    pub closed spec fn handle_spec(&self) -> [u8; 8] {
        self.handle
    }

    pub closed spec fn wf(&self) -> bool {
        self.next <= self.addresses@.len()
    }
}

/// Executes the egress open order; see the module documentation.
pub struct TcpEgressConnector {
    pub acl: AclEngine,
    pub circuit: CircuitBreaker,
    pub metrics: Metrics,
    pub events: PrivacyEventBuffer,
    pub connect_timeout_ms: u64,
}

impl TcpEgressConnector {
    pub open spec fn wf(&self) -> bool {
        &&& self.acl.wf()
        &&& self.metrics.wf()
        &&& self.events.settings().enabled ==> self.events.settings().capacity > 0
            && self.events.settings().coarse_bucket_seconds > 0
    }

    /// `now_ms` leaves room for the event TTL and the breaker's cooldown.
    pub open spec fn clock_ok(&self, now_ms: u64) -> bool {
        &&& now_ms + self.events.settings().ttl_seconds * 1000 <= u64::MAX
        &&& now_ms + self.circuit.cooldown() <= u64::MAX
    }

    pub fn new(
        acl: AclEngine,
        circuit: CircuitBreaker,
        metrics: Metrics,
        events: PrivacyEventBuffer,
        connect_timeout_ms: u64,
    ) -> (connector: Self)
        ensures
            connector.acl == acl,
            connector.circuit == circuit,
            connector.metrics == metrics,
            connector.events == events,
            connector.connect_timeout_ms == connect_timeout_ms,
    {
        TcpEgressConnector { acl, circuit, metrics, events, connect_timeout_ms }
    }

    /// The first step: the session must be active and the destination
    /// allowed; yields the scan material for the reservation.
    pub fn check_request(
        &mut self,
        lease: &SessionLease,
        destination: &Destination,
        port: u16,
        now_unix_ms: u64,
        now_ms: u64,
        unix_seconds: u64,
    ) -> (result: Result<Vec<u8>, GatewayError>)
        requires
            old(self).wf(),
            old(self).clock_ok(now_ms),
        ensures
            final(self).wf(),
            final(self).acl == old(self).acl,
            final(self).circuit == old(self).circuit,
            final(self).events.settings() == old(self).events.settings(),
            !lease.active_at(now_unix_ms) ==> (result matches Err(e) && e.code
                == GatewayErrorCode::SessionExpired && final(self).metrics == old(self).metrics),
            !lease.active_at(now_unix_ms) ==> final(self).events == old(self).events,
            lease.active_at(now_unix_ms) && old(self).acl.destination_allowed(*destination, port)
                ==> final(self).events == old(self).events,
            lease.active_at(now_unix_ms) && !old(self).acl.destination_allowed(*destination, port)
                ==> event_recorded(
                old(self).events,
                final(self).events,
                PrivacyEventKind::PolicyRejected,
                Some(lease.handle_spec()),
                now_ms,
                unix_seconds,
            ),
            lease.active_at(now_unix_ms) && !old(self).acl.destination_allowed(*destination, port)
                ==> result == Err::<Vec<u8>, GatewayError>(policy_denied())
                && final(self).metrics.counts() == old(self).metrics.counts().update(
                metric_index(Metric::PolicyViolations),
                counter_after(old(self).metrics.counts()[metric_index(Metric::PolicyViolations)], 1),
            ),
            lease.active_at(now_unix_ms) && old(self).acl.destination_allowed(*destination, port)
                ==> (result matches Ok(material) && material@ == scan_material_of(*destination, port)
                && final(self).metrics == old(self).metrics),
    {
        lease.ensure_active(now_unix_ms)?;
        if let Err(error) = self.acl.check_destination(destination, port) {
            self.metrics.increment(Metric::PolicyViolations);
            let _ = self.events.record(
                PrivacyEventKind::PolicyRejected,
                Some(lease.handle()),
                now_ms,
                unix_seconds,
            );
            return Err(error);
        }
        Ok(scan_material(destination, port))
    }

    /// The second step: the reservation (made with the token's rate
    /// verdict), then the circuit breaker. A refused reservation counts
    /// toward its metric; an open breaker hands the reservation back.
    pub fn reserve<R, B>(
        &mut self,
        sessions: &mut SessionManager<R, B>,
        lease: &mut SessionLease,
        material: &[u8],
        rate_allowed: bool,
        now_unix_ms: u64,
        now_mono_ms: u64,
        now_ms: u64,
    ) -> (result: Result<StreamLease, GatewayError>)
        requires
            old(self).wf(),
            old(sessions).wf(),
        ensures
            final(self).wf(),
            final(sessions).wf(),
            final(self).acl == old(self).acl,
            final(self).events == old(self).events,
            match old(sessions).reserve_check(*old(lease), material@, rate_allowed, now_unix_ms, now_mono_ms) {
                Some(code) => result matches Err(e) && e.code == code && final(self).metrics.counts()
                    == old(self).metrics.counts().update(
                    metric_index(reservation_metric(code)),
                    counter_after(old(self).metrics.counts()[metric_index(reservation_metric(code))], 1),
                ) && final(sessions).stream_total() == old(sessions).stream_total(),
                None => match old(self).circuit.open_deadline() {
                    Some(deadline) if now_ms < deadline => result matches Err(e) && e.code
                        == GatewayErrorCode::CircuitOpen && final(self).metrics.counts()
                        == old(self).metrics.counts().update(
                        metric_index(Metric::CircuitOpen),
                        counter_after(old(self).metrics.counts()[metric_index(Metric::CircuitOpen)], 1),
                    ),
                    _ => result is Ok && final(sessions).stream_total() == old(sessions).stream_total()
                        + 1 && final(self).metrics == old(self).metrics,
                },
            },
    {
        let permit = match sessions.reserve_stream(lease, material, rate_allowed, now_unix_ms, now_mono_ms) {
            Ok(permit) => permit,
            Err(error) => {
                let metric = match error.code {
                    GatewayErrorCode::Draining => Metric::DrainingRejections,
                    GatewayErrorCode::PolicyDenied => Metric::PolicyViolations,
                    _ => Metric::RateLimitViolations,
                };
                self.metrics.increment(metric);
                return Err(error);
            },
        };
        match self.circuit.before_connect(now_ms) {
            Ok(()) => Ok(permit),
            Err(error) => {
                self.metrics.increment(Metric::CircuitOpen);
                sessions.release_stream(lease, permit);
                Err(error)
            },
        }
    }

    /// The third step: the addresses to dial. A hostname's resolution comes
    /// from the caller; a failed resolution is reported and ends the open.
    pub fn addresses(
        &mut self,
        destination: &Destination,
        resolution: Option<Result<Vec<IpAddress>, GatewayError>>,
        port: u16,
        handle: [u8; 8],
        now_ms: u64,
        unix_seconds: u64,
    ) -> (result: Result<EgressAttempt, GatewayError>)
        requires
            old(self).wf(),
            old(self).clock_ok(now_ms),
        ensures
            final(self).wf(),
            final(self).acl == old(self).acl,
            final(self).circuit == old(self).circuit,
            final(self).events.settings() == old(self).events.settings(),
            match (destination, resolution) {
                (Destination::Ip(address), _) => result matches Ok(attempt) && attempt.wf()
                    && attempt.remaining() == seq![*address] && attempt.port_spec() == port
                    && final(self).metrics == old(self).metrics,
                (Destination::Hostname(_), Some(Ok(list))) => result matches Ok(attempt)
                    && attempt.wf() && attempt.remaining() == list@ && attempt.port_spec() == port
                    && final(self).metrics == old(self).metrics,
                (Destination::Hostname(_), Some(Err(e))) => result == Err::<EgressAttempt, GatewayError>(e)
                    && event_recorded(
                    old(self).events,
                    final(self).events,
                    PrivacyEventKind::DnsUnavailable,
                    Some(handle),
                    now_ms,
                    unix_seconds,
                ) && final(self).metrics.counts() == old(self).metrics.counts().update(
                    metric_index(Metric::DnsFailures),
                    counter_after(old(self).metrics.counts()[metric_index(Metric::DnsFailures)], 1),
                ),
                (Destination::Hostname(_), None) => result matches Err(e) && e.code
                    == GatewayErrorCode::DnsFailure,
            },
            result matches Ok(attempt) ==> attempt.last_error_spec().code
                == GatewayErrorCode::EgressFailure && !attempt.infrastructure_failed()
                && attempt.handle_spec() == handle && final(self).events == old(self).events,
    {
        let addresses = match destination {
            Destination::Ip(address) => {
                let mut v: Vec<IpAddress> = Vec::new();
                v.push(*address);
                v
            },
            Destination::Hostname(_) => match resolution {
                Some(Ok(list)) => list,
                Some(Err(error)) => {
                    self.metrics.increment(Metric::DnsFailures);
                    let _ = self.events.record(
                        PrivacyEventKind::DnsUnavailable,
                        Some(handle),
                        now_ms,
                        unix_seconds,
                    );
                    return Err(error);
                },
                None => return Err(GatewayError::new(GatewayErrorCode::DnsFailure)),
            },
        };
        proof {
            assert(addresses@.skip(0) =~= addresses@);
        }
        Ok(
            EgressAttempt {
                addresses,
                next: 0,
                port,
                last_error: GatewayError::new(GatewayErrorCode::EgressFailure),
                infrastructure_failure: false,
                handle,
            },
        )
    }

    /// The next dial of an attempt: the next address if the policy allows it,
    /// else the denial; when none is left, the failure is recorded.
    pub fn next_dial(
        &mut self,
        attempt: &mut EgressAttempt,
        now_ms: u64,
        unix_seconds: u64,
    ) -> (step: DialStep)
        requires
            old(self).wf(),
            old(attempt).wf(),
            old(self).clock_ok(now_ms),
        ensures
            final(self).wf(),
            final(attempt).wf(),
            final(self).acl == old(self).acl,
            final(self).events.settings() == old(self).events.settings(),
            old(attempt).remaining().len() > 0 ==> {
                let address = old(attempt).remaining()[0];
                if old(self).acl.ip_allowed(address) {
                    step matches DialStep::Dial(a, p) && same_ip(a, address) && p == old(attempt).port_spec()
                        && final(attempt).remaining() == old(attempt).remaining().drop_first()
                        && final(self).metrics == old(self).metrics && final(self).circuit == old(self).circuit
                        && final(self).events == old(self).events
                } else {
                    step matches DialStep::Denied(e) && e == policy_denied() && event_recorded(
                        old(self).events,
                        final(self).events,
                        PrivacyEventKind::PolicyRejected,
                        Some(old(attempt).handle_spec()),
                        now_ms,
                        unix_seconds,
                    ) && final(self).metrics.counts() == old(self).metrics.counts().update(
                        metric_index(Metric::PolicyViolations),
                        counter_after(old(self).metrics.counts()[metric_index(Metric::PolicyViolations)], 1),
                    )
                }
            },
            old(attempt).remaining().len() == 0 ==> {
                &&& step matches DialStep::Exhausted(e) && e == old(attempt).last_error_spec()
                &&& event_recorded(
                    old(self).events,
                    final(self).events,
                    PrivacyEventKind::EgressUnavailable,
                    Some(old(attempt).handle_spec()),
                    now_ms,
                    unix_seconds,
                )
                &&& final(self).metrics.counts() == old(self).metrics.counts().update(
                    metric_index(Metric::EgressFailures),
                    counter_after(old(self).metrics.counts()[metric_index(Metric::EgressFailures)], 1),
                )
                &&& old(attempt).infrastructure_failed() ==> final(self).circuit.failure_count() == (if old(
                    self,
                ).circuit.failure_count() == u32::MAX {
                    0
                } else {
                    old(self).circuit.failure_count() + 1
                })
                &&& !old(attempt).infrastructure_failed() ==> final(self).circuit == old(self).circuit
            },
    {
        if attempt.next >= attempt.addresses.len() {
            if attempt.infrastructure_failure {
                self.circuit.record_failure(now_ms);
            }
            self.metrics.increment(Metric::EgressFailures);
            let _ = self.events.record(
                PrivacyEventKind::EgressUnavailable,
                Some(attempt.handle),
                now_ms,
                unix_seconds,
            );
            return DialStep::Exhausted(attempt.last_error);
        }
        let address = attempt.addresses[attempt.next];
        proof {
            assert(old(attempt).remaining()[0] == attempt.addresses@[attempt.next as int]);
        }
        if let Err(error) = self.acl.check_ip(&address) {
            self.metrics.increment(Metric::PolicyViolations);
            let _ = self.events.record(
                PrivacyEventKind::PolicyRejected,
                Some(attempt.handle),
                now_ms,
                unix_seconds,
            );
            return DialStep::Denied(error);
        }
        attempt.next = attempt.next + 1;
        proof {
            assert(attempt.remaining() =~= old(attempt).remaining().drop_first());
        }
        DialStep::Dial(address, attempt.port)
    }

    /// Takes a dial's outcome: a connection is counted and resets the
    /// breaker's failures; a failure is remembered for the final error.
    pub fn on_dial(&mut self, attempt: &mut EgressAttempt, outcome: DialOutcome) -> (connected: bool)
        requires
            old(self).wf(),
            old(attempt).wf(),
        ensures
            final(self).wf(),
            final(attempt).wf(),
            final(self).acl == old(self).acl,
            final(self).events == old(self).events,
            final(attempt).remaining() == old(attempt).remaining(),
            match outcome {
                DialOutcome::Connected => connected && final(self).circuit.failure_count() == 0
                    && final(self).metrics.counts() == old(self).metrics.counts().update(
                    metric_index(Metric::OpenedStreams),
                    counter_after(old(self).metrics.counts()[metric_index(Metric::OpenedStreams)], 1),
                ),
                DialOutcome::Failed(e) => !connected && final(attempt).last_error_spec() == e
                    && final(attempt).infrastructure_failed() == (old(attempt).infrastructure_failed()
                    || e.code == GatewayErrorCode::EgressInfrastructureFailure)
                    && final(self).metrics == old(self).metrics && final(self).circuit == old(self).circuit,
                DialOutcome::TimedOut => !connected && final(attempt).last_error_spec().code
                    == GatewayErrorCode::Timeout && final(attempt).infrastructure_failed()
                    == old(attempt).infrastructure_failed() && final(self).metrics == old(self).metrics
                    && final(self).circuit == old(self).circuit,
            },
    {
        match outcome {
            DialOutcome::Connected => {
                self.circuit.record_success();
                self.metrics.increment(Metric::OpenedStreams);
                true
            },
            DialOutcome::Failed(error) => {
                if error.code == GatewayErrorCode::EgressInfrastructureFailure {
                    attempt.infrastructure_failure = true;
                }
                attempt.last_error = error;
                false
            },
            DialOutcome::TimedOut => {
                attempt.last_error = GatewayError::new(GatewayErrorCode::Timeout);
                false
            },
        }
    }
}

/// Two addresses are the same.
pub open spec fn same_ip(a: IpAddress, b: IpAddress) -> bool {
    a == b
}

} // verus!
