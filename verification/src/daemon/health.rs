//! Closed-schema operational metrics and TTL-bounded privacy events. Times
//! are milliseconds on the caller's monotonic clock unless named otherwise.
use std::collections::VecDeque;

use vstd::prelude::*;
use vstd::string::StringExecFns;

use crate::daemon::config::PrivacyEventConfig;
use crate::daemon::error::GatewayError;

verus! {

#[derive(Clone, Copy, Debug, PartialEq, Eq, Structural)]
pub enum Metric {
    AcceptedSessions,
    RejectedAuthentication,
    OpenedStreams,
    ClosedStreams,
    PolicyViolations,
    DnsFailures,
    EgressFailures,
    ProtocolViolations,
    RateLimitViolations,
    BytesClientToEgress,
    BytesEgressToClient,
    CircuitOpen,
    DrainingRejections,
}

pub const METRIC_COUNT: usize = 13;

/// The position of a metric's counter.
pub open spec fn metric_index(metric: Metric) -> int {
    match metric {
        Metric::AcceptedSessions => 0,
        Metric::RejectedAuthentication => 1,
        Metric::OpenedStreams => 2,
        Metric::ClosedStreams => 3,
        Metric::PolicyViolations => 4,
        Metric::DnsFailures => 5,
        Metric::EgressFailures => 6,
        Metric::ProtocolViolations => 7,
        Metric::RateLimitViolations => 8,
        Metric::BytesClientToEgress => 9,
        Metric::BytesEgressToClient => 10,
        Metric::CircuitOpen => 11,
        Metric::DrainingRejections => 12,
    }
}

impl Metric {
    pub fn index(self) -> (i: usize)
        ensures
            i == metric_index(self),
            i < METRIC_COUNT,
    {
        match self {
            Metric::AcceptedSessions => 0,
            Metric::RejectedAuthentication => 1,
            Metric::OpenedStreams => 2,
            Metric::ClosedStreams => 3,
            Metric::PolicyViolations => 4,
            Metric::DnsFailures => 5,
            Metric::EgressFailures => 6,
            Metric::ProtocolViolations => 7,
            Metric::RateLimitViolations => 8,
            Metric::BytesClientToEgress => 9,
            Metric::BytesEgressToClient => 10,
            Metric::CircuitOpen => 11,
            Metric::DrainingRejections => 12,
        }
    }
}

/// Counters with no arbitrary labels, so no token, destination, account,
/// address or circuit identifier can reach them.
#[derive(Debug)]
pub struct Metrics {
    counters: Vec<u64>,
}

/// `current + value`, wrapping as a 64-bit counter does.
pub open spec fn counter_after(current: u64, value: u64) -> u64 {
    if current + value > u64::MAX {
        (current + value - u64::MAX - 1) as u64
    } else {
        (current + value) as u64
    }
}

impl Metrics {
    /// The counter values, by `metric_index`.
    pub closed spec fn counts(&self) -> Seq<u64> {
        self.counters@
    }

    pub closed spec fn wf(&self) -> bool {
        self.counters@.len() == METRIC_COUNT
    }

    pub fn increment(&mut self, metric: Metric)
        requires
            old(self).wf(),
        ensures
            final(self).wf(),
            final(self).counts() == old(self).counts().update(
                metric_index(metric),
                counter_after(old(self).counts()[metric_index(metric)], 1),
            ),
    {
        self.add(metric, 1);
    }

    pub fn add(&mut self, metric: Metric, value: u64)
        requires
            old(self).wf(),
        ensures
            final(self).wf(),
            final(self).counts() == old(self).counts().update(
                metric_index(metric),
                counter_after(old(self).counts()[metric_index(metric)], value),
            ),
    {
        let i = metric.index();
        let current = self.counters[i];
        let updated = if current > u64::MAX - value {
            value - (u64::MAX - current) - 1
        } else {
            current + value
        };
        self.counters.set(i, updated);
    }

    pub fn get(&self, metric: Metric) -> (value: u64)
        requires
            self.wf(),
        ensures
            value == self.counts()[metric_index(metric)],
    {
        self.counters[metric.index()]
    }
}

/// The exported name of the counter at position `i`.
pub open spec fn metric_name_text(i: int) -> Seq<char> {
    if i == 0 {
        "onionroute_gateway_sessions_accepted_total"@
    } else if i == 1 {
        "onionroute_gateway_auth_rejected_total"@
    } else if i == 2 {
        "onionroute_gateway_streams_opened_total"@
    } else if i == 3 {
        "onionroute_gateway_streams_closed_total"@
    } else if i == 4 {
        "onionroute_gateway_policy_violations_total"@
    } else if i == 5 {
        "onionroute_gateway_dns_failures_total"@
    } else if i == 6 {
        "onionroute_gateway_egress_failures_total"@
    } else if i == 7 {
        "onionroute_gateway_protocol_violations_total"@
    } else if i == 8 {
        "onionroute_gateway_rate_limit_violations_total"@
    } else if i == 9 {
        "onionroute_gateway_client_to_egress_bytes_total"@
    } else if i == 10 {
        "onionroute_gateway_egress_to_client_bytes_total"@
    } else if i == 11 {
        "onionroute_gateway_circuit_open_total"@
    } else {
        "onionroute_gateway_draining_rejections_total"@
    }
}

fn metric_name(i: usize) -> (name: &'static str)
    ensures
        name@ == metric_name_text(i as int),
{
    if i == 0 {
        "onionroute_gateway_sessions_accepted_total"
    } else if i == 1 {
        "onionroute_gateway_auth_rejected_total"
    } else if i == 2 {
        "onionroute_gateway_streams_opened_total"
    } else if i == 3 {
        "onionroute_gateway_streams_closed_total"
    } else if i == 4 {
        "onionroute_gateway_policy_violations_total"
    } else if i == 5 {
        "onionroute_gateway_dns_failures_total"
    } else if i == 6 {
        "onionroute_gateway_egress_failures_total"
    } else if i == 7 {
        "onionroute_gateway_protocol_violations_total"
    } else if i == 8 {
        "onionroute_gateway_rate_limit_violations_total"
    } else if i == 9 {
        "onionroute_gateway_client_to_egress_bytes_total"
    } else if i == 10 {
        "onionroute_gateway_egress_to_client_bytes_total"
    } else if i == 11 {
        "onionroute_gateway_circuit_open_total"
    } else {
        "onionroute_gateway_draining_rejections_total"
    }
}

/// The decimal digit character of `d`.
pub open spec fn digit_char(d: nat) -> char {
    if d == 0 {
        '0'
    } else if d == 1 {
        '1'
    } else if d == 2 {
        '2'
    } else if d == 3 {
        '3'
    } else if d == 4 {
        '4'
    } else if d == 5 {
        '5'
    } else if d == 6 {
        '6'
    } else if d == 7 {
        '7'
    } else if d == 8 {
        '8'
    } else {
        '9'
    }
}

/// The decimal digits of a number, most significant first.
pub open spec fn digits(v: nat) -> Seq<char>
    decreases v,
{
    if v < 10 {
        seq![digit_char(v)]
    } else {
        digits(v / 10).push(digit_char(v % 10))
    }
}

fn digit_text(d: u64) -> (text: &'static str)
    requires
        d < 10,
    ensures
        text@ == seq![digit_char(d as nat)],
{
    proof {
        reveal_strlit("0");
        reveal_strlit("1");
        reveal_strlit("2");
        reveal_strlit("3");
        reveal_strlit("4");
        reveal_strlit("5");
        reveal_strlit("6");
        reveal_strlit("7");
        reveal_strlit("8");
        reveal_strlit("9");
    }
    if d == 0 {
        "0"
    } else if d == 1 {
        "1"
    } else if d == 2 {
        "2"
    } else if d == 3 {
        "3"
    } else if d == 4 {
        "4"
    } else if d == 5 {
        "5"
    } else if d == 6 {
        "6"
    } else if d == 7 {
        "7"
    } else if d == 8 {
        "8"
    } else {
        "9"
    }
}

pub(crate) fn append_digits(out: &mut String, v: u64)
    ensures
        final(out)@ == old(out)@ + digits(v as nat),
    decreases v,
{
    if v < 10 {
        out.append(digit_text(v));
        proof {
            assert(final(out)@ =~= old(out)@ + digits(v as nat));
        }
    } else {
        append_digits(out, v / 10);
        out.append(digit_text(v % 10));
        proof {
            assert(final(out)@ =~= old(out)@ + digits(v as nat));
        }
    }
}

/// One exposition line: a name, a space, a value and a newline.
pub open spec fn metric_line(name: Seq<char>, value: nat) -> Seq<char> {
    name + " "@ + digits(value) + "\n"@
}

/// The lines of the first `n` counters, in order.
pub open spec fn metric_lines(counts: Seq<u64>, n: nat) -> Seq<char>
    decreases n,
{
    if n == 0 {
        Seq::empty()
    } else {
        metric_lines(counts, (n - 1) as nat) + metric_line(metric_name_text(n - 1), counts[n - 1] as nat)
    }
}

/// The Prometheus text exposition: every counter, the active session and
/// stream gauges, and readiness as 1 or 0.
pub open spec fn prometheus_text(counts: Seq<u64>, sessions: nat, streams: nat, ready: bool) -> Seq<char> {
    metric_lines(counts, METRIC_COUNT as nat) + metric_line("onionroute_gateway_active_sessions"@, sessions)
        + metric_line("onionroute_gateway_active_streams"@, streams) + "onionroute_gateway_ready "@ + if ready {
        "1\n"@
    } else {
        "0\n"@
    }
}

impl Metrics {
    /// Renders the counters and gauges as `prometheus_text` describes.
    pub fn render_prometheus(&self, active_sessions: usize, active_streams: usize, ready: bool) -> (text: String)
        requires
            self.wf(),
        ensures
            text@ == prometheus_text(self.counts(), active_sessions as nat, active_streams as nat, ready),
    {
        let mut output = String::new();
        let mut i: usize = 0;
        while i < METRIC_COUNT
            invariant
                self.wf(),
                i <= METRIC_COUNT,
                output@ == metric_lines(self.counts(), i as nat),
            decreases METRIC_COUNT - i,
        {
            output.append(metric_name(i));
            output.append(" ");
            append_digits(&mut output, self.counters[i]);
            output.append("\n");
            proof {
                assert(output@ =~= metric_lines(self.counts(), (i + 1) as nat));
            }
            i = i + 1;
        }
        output.append("onionroute_gateway_active_sessions");
        output.append(" ");
        append_digits(&mut output, active_sessions as u64);
        output.append("\n");
        output.append("onionroute_gateway_active_streams");
        output.append(" ");
        append_digits(&mut output, active_streams as u64);
        output.append("\n");
        output.append("onionroute_gateway_ready ");
        output.append(if ready { "1\n" } else { "0\n" });
        proof {
            assert(output@ =~= prometheus_text(self.counts(), active_sessions as nat, active_streams as nat, ready));
        }
        output
    }
}

impl Default for Metrics {
    fn default() -> (metrics: Self)
        ensures
            metrics.wf(),
            metrics.counts() == Seq::new(METRIC_COUNT as nat, |i: int| 0u64),
    {
        let mut counters: Vec<u64> = Vec::new();
        let mut i: usize = 0;
        while i < METRIC_COUNT
            invariant
                i <= METRIC_COUNT,
                counters@ == Seq::new(i as nat, |k: int| 0u64),
            decreases METRIC_COUNT - i,
        {
            counters.push(0);
            proof {
                assert(counters@ =~= Seq::new((i + 1) as nat, |k: int| 0u64));
            }
            i = i + 1;
        }
        Metrics { counters }
    }
}

/// Allow-listed event categories; there is no free-form message.
#[derive(Clone, Copy, Debug, PartialEq, Eq, Structural)]
pub enum PrivacyEventKind {
    AuthenticationRejected,
    ProtocolRejected,
    PolicyRejected,
    RateLimited,
    DnsUnavailable,
    EgressUnavailable,
    CircuitOpened,
    Draining,
}

#[derive(Clone, Debug, PartialEq, Eq)]
pub struct PrivacyEvent {
    pub kind: PrivacyEventKind,
    pub coarse_time_bucket: u64,
    pub gateway_id: String,
    pub ephemeral_session_handle: Option<[u8; 8]>,
    pub count: u64,
    /// When the event expires, in milliseconds on the monotonic clock.
    pub expires_at_ms: u64,
}

impl PrivacyEvent {
    fn duplicate(&self) -> (copy: Self)
        ensures
            copy == *self,
    {
        PrivacyEvent {
            kind: self.kind,
            coarse_time_bucket: self.coarse_time_bucket,
            gateway_id: self.gateway_id.clone(),
            ephemeral_session_handle: self.ephemeral_session_handle,
            count: self.count,
            expires_at_ms: self.expires_at_ms,
        }
    }
}

/// Bounded in-memory event store. Every read and write purges expired events,
/// so no event outlives the configured TTL.
#[derive(Debug)]
pub struct PrivacyEventBuffer {
    config: PrivacyEventConfig,
    gateway_id: String,
    events: VecDeque<PrivacyEvent>,
}

/// The events of `events` that are still live at `now_ms`, in order.
pub open spec fn live_events(events: Seq<PrivacyEvent>, now_ms: u64) -> Seq<PrivacyEvent> {
    events.filter(|event: PrivacyEvent| event.expires_at_ms > now_ms)
}

/// `after` is `before` once `record` stored an event of `kind` for
/// `handle` at `now_ms` (nothing is stored while recording is disabled).
pub open spec fn event_recorded(
    before: PrivacyEventBuffer,
    after: PrivacyEventBuffer,
    kind: PrivacyEventKind,
    handle: Option<[u8; 8]>,
    now_ms: u64,
    unix_seconds: u64,
) -> bool {
    &&& after.settings() == before.settings()
    &&& after.gateway() == before.gateway()
    &&& !before.settings().enabled ==> after.stored() == before.stored()
    &&& before.settings().enabled ==> {
        let live = live_events(before.stored(), now_ms);
        let kept = if live.len() >= before.settings().capacity {
            live.subrange(live.len() - before.settings().capacity + 1, live.len() as int)
        } else {
            live
        };
        let event = after.stored().last();
        &&& after.stored() == kept.push(event)
        &&& event.kind == kind
        &&& event.coarse_time_bucket == unix_seconds / before.settings().coarse_bucket_seconds
        &&& event.gateway_id@ == before.gateway()
        &&& event.ephemeral_session_handle == handle
        &&& event.count == 1
        &&& event.expires_at_ms == now_ms + before.settings().ttl_seconds * 1000
    }
}

impl PrivacyEventBuffer {
    pub closed spec fn settings(&self) -> PrivacyEventConfig {
        self.config
    }

    pub closed spec fn gateway(&self) -> Seq<char> {
        self.gateway_id@
    }

    /// The stored events, oldest first.
    pub closed spec fn stored(&self) -> Seq<PrivacyEvent> {
        self.events@
    }

    pub fn new(config: PrivacyEventConfig, gateway_id: String) -> (buffer: Self)
        ensures
            buffer.settings() == config,
            buffer.gateway() == gateway_id@,
            buffer.stored().len() == 0,
    {
        PrivacyEventBuffer { config, gateway_id, events: VecDeque::new() }
    }

    fn purge_expired(&mut self, now_ms: u64)
        ensures
            final(self).settings() == old(self).settings(),
            final(self).gateway() == old(self).gateway(),
            final(self).stored() == live_events(old(self).stored(), now_ms),
    {
        let mut kept: VecDeque<PrivacyEvent> = VecDeque::new();
        let ghost original = self.events@;
        let mut i: usize = 0;
        while i < self.events.len()
            invariant
                self.events@ == original,
                i <= original.len(),
                kept@ == live_events(original.subrange(0, i as int), now_ms),
            decreases original.len() - i,
        {
            let event = &self.events[i];
            proof {
                assert(original.subrange(0, i + 1) =~= original.subrange(0, i as int).push(
                    original[i as int],
                ));
                reveal(Seq::filter);
                assert(original.subrange(0, i + 1).drop_last() =~= original.subrange(0, i as int));
            }
            if event.expires_at_ms > now_ms {
                kept.push_back(event.duplicate());
            }
            i = i + 1;
        }
        proof {
            assert(original.subrange(0, original.len() as int) =~= original);
        }
        self.events = kept;
    }

    /// Records one event unless recording is disabled; the oldest events make
    /// room when the buffer is full. `unix_seconds` is wall-clock time.
    pub fn record(
        &mut self,
        kind: PrivacyEventKind,
        ephemeral_session_handle: Option<[u8; 8]>,
        now_ms: u64,
        unix_seconds: u64,
    ) -> (result: Result<(), GatewayError>)
        requires
            old(self).settings().enabled ==> old(self).settings().capacity > 0
                && old(self).settings().coarse_bucket_seconds > 0 && now_ms
                + old(self).settings().ttl_seconds * 1000 <= u64::MAX,
        ensures
            result is Ok,
            event_recorded(*old(self), *final(self), kind, ephemeral_session_handle, now_ms, unix_seconds),
            final(self).settings() == old(self).settings(),
            final(self).gateway() == old(self).gateway(),
            !old(self).settings().enabled ==> final(self).stored() == old(self).stored(),
            old(self).settings().enabled ==> {
                let live = live_events(old(self).stored(), now_ms);
                let kept = if live.len() >= old(self).settings().capacity {
                    live.subrange(
                        live.len() - old(self).settings().capacity + 1,
                        live.len() as int,
                    )
                } else {
                    live
                };
                let event = final(self).stored().last();
                &&& final(self).stored() == kept.push(event)
                &&& event.kind == kind
                &&& event.coarse_time_bucket == unix_seconds / old(self).settings().coarse_bucket_seconds
                &&& event.gateway_id@ == old(self).gateway()
                &&& event.ephemeral_session_handle == ephemeral_session_handle
                &&& event.count == 1
                &&& event.expires_at_ms == now_ms + old(self).settings().ttl_seconds * 1000
            },
            final(self).stored().len() <= if old(self).settings().enabled {
                old(self).settings().capacity as int
            } else {
                old(self).stored().len() as int
            },
    {
        if !self.config.enabled {
            return Ok(());
        }
        self.purge_expired(now_ms);
        let ghost live = self.events@;
        let ghost settings = self.config;
        let ghost gateway = self.gateway_id@;
        let capacity = self.config.capacity;
        while self.events.len() >= capacity
            invariant
                capacity == self.config.capacity,
                capacity > 0,
                self.config == settings,
                self.gateway_id@ == gateway,
                self.config.coarse_bucket_seconds > 0,
                now_ms + self.config.ttl_seconds * 1000 <= u64::MAX,
                live.len() >= self.events@.len(),
                self.events@.len() < live.len() ==> self.events@.len() >= capacity - 1,
                self.events@ == live.subrange(live.len() - self.events@.len(), live.len() as int),
            decreases self.events@.len(),
        {
            let ghost before = self.events@;
            self.events.pop_front();
            proof {
                assert(self.events@ =~= live.subrange(
                    live.len() - self.events@.len(),
                    live.len() as int,
                ));
            }
        }
        proof {
            if live.len() < capacity {
                assert(self.events@ =~= live);
            } else {
                assert(self.events@.len() == capacity - 1);
            }
        }
        let event = PrivacyEvent {
            kind,
            coarse_time_bucket: unix_seconds / self.config.coarse_bucket_seconds,
            gateway_id: self.gateway_id.clone(),
            ephemeral_session_handle,
            count: 1,
            expires_at_ms: now_ms + self.config.ttl_seconds * 1000,
        };
        self.events.push_back(event);
        Ok(())
    }

    /// The live events, oldest first.
    pub fn snapshot(&mut self, now_ms: u64) -> (result: Result<Vec<PrivacyEvent>, GatewayError>)
        ensures
            final(self).settings() == old(self).settings(),
            final(self).gateway() == old(self).gateway(),
            final(self).stored() == live_events(old(self).stored(), now_ms),
            result matches Ok(events) && events@ == final(self).stored(),
    {
        self.purge_expired(now_ms);
        let mut events: Vec<PrivacyEvent> = Vec::new();
        let mut i: usize = 0;
        while i < self.events.len()
            invariant
                i <= self.events@.len(),
                events@ == self.events@.subrange(0, i as int),
            decreases self.events@.len() - i,
        {
            events.push(self.events[i].duplicate());
            proof {
                assert(self.events@.subrange(0, i + 1) =~= self.events@.subrange(0, i as int).push(
                    self.events@[i as int],
                ));
            }
            i = i + 1;
        }
        proof {
            assert(events@ =~= self.events@);
        }
        Ok(events)
    }

    /// Drops every expired event.
    pub fn purge(&mut self, now_ms: u64) -> (result: Result<(), GatewayError>)
        ensures
            result is Ok,
            final(self).settings() == old(self).settings(),
            final(self).gateway() == old(self).gateway(),
            final(self).stored() == live_events(old(self).stored(), now_ms),
    {
        self.purge_expired(now_ms);
        Ok(())
    }
}

/// After any purge at `now_ms`, no stored event has expired: events never
/// outlive their TTL.
pub proof fn lemma_live_events_unexpired(events: Seq<PrivacyEvent>, now_ms: u64)
    ensures
        forall|i: int|
            0 <= i < live_events(events, now_ms).len() ==> #[trigger] live_events(
                events,
                now_ms,
            )[i].expires_at_ms > now_ms,
{
    let live = live_events(events, now_ms);
    assert forall|i: int| 0 <= i < live.len() implies #[trigger] live[i].expires_at_ms > now_ms by {
        events.filter_lemma(|event: PrivacyEvent| event.expires_at_ms > now_ms);
    }
}

} // verus!
