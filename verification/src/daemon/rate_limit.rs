//! The global egress circuit breaker. Times are milliseconds on the caller's
//! monotonic clock.
use vstd::prelude::*;

use crate::daemon::error::{GatewayError, GatewayErrorCode};

verus! {

/// Only connection failures affect the breaker; policy, authentication and
/// DNS denials do not.
#[derive(Debug)]
pub struct CircuitBreaker {
    failures: u32,
    threshold: u32,
    cooldown_ms: u64,
    open_until: Option<u64>,
}

impl CircuitBreaker {
    /// Consecutive connection failures counted so far.
    pub closed spec fn failure_count(&self) -> u32 {
        self.failures
    }

    pub closed spec fn failure_threshold(&self) -> u32 {
        self.threshold
    }

    pub closed spec fn cooldown(&self) -> u64 {
        self.cooldown_ms
    }

    /// The time until which the breaker refuses connections, when it has opened.
    pub closed spec fn open_deadline(&self) -> Option<u64> {
        self.open_until
    }

    pub fn new(threshold: u32, cooldown_ms: u64) -> (breaker: Self)
        ensures
            breaker.failure_count() == 0,
            breaker.failure_threshold() == threshold,
            breaker.cooldown() == cooldown_ms,
            breaker.open_deadline() is None,
    {
        CircuitBreaker { failures: 0, threshold, cooldown_ms, open_until: None }
    }

    /// Refuses while the breaker is open; once its deadline has passed it
    /// closes and the failure count starts again from zero.
    pub fn before_connect(&mut self, now_ms: u64) -> (result: Result<(), GatewayError>)
        ensures
            final(self).failure_threshold() == old(self).failure_threshold(),
            final(self).cooldown() == old(self).cooldown(),
            match old(self).open_deadline() {
                Some(deadline) => if now_ms < deadline {
                    result == Err::<(), GatewayError>(GatewayError { code: GatewayErrorCode::CircuitOpen })
                        && *final(self) == *old(self)
                } else {
                    result is Ok && final(self).open_deadline() is None
                        && final(self).failure_count() == 0
                },
                None => result is Ok && *final(self) == *old(self),
            },
    {
        if let Some(deadline) = self.open_until {
            if now_ms < deadline {
                return Err(GatewayError::new(GatewayErrorCode::CircuitOpen));
            }
            self.open_until = None;
            self.failures = 0;
        }
        Ok(())
    }

    pub fn record_success(&mut self)
        ensures
            final(self).failure_count() == 0,
            final(self).failure_threshold() == old(self).failure_threshold(),
            final(self).cooldown() == old(self).cooldown(),
            final(self).open_deadline() == old(self).open_deadline(),
    {
        self.failures = 0;
    }

    /// Whether recording a failure now opens the breaker.
    pub open spec fn opens_on_failure(&self) -> bool {
        (if self.failure_count() == u32::MAX {
            u32::MAX as int
        } else {
            self.failure_count() + 1
        }) >= self.failure_threshold()
    }

    /// Counts a connection failure; at the threshold the breaker opens for
    /// the cooldown.
    pub fn record_failure(&mut self, now_ms: u64)
        requires
            old(self).opens_on_failure() ==> now_ms + old(self).cooldown() <= u64::MAX,
        ensures
            final(self).failure_count() == (if old(self).failure_count() == u32::MAX {
                0
            } else {
                old(self).failure_count() + 1
            }),
            final(self).failure_threshold() == old(self).failure_threshold(),
            final(self).cooldown() == old(self).cooldown(),
            final(self).open_deadline() == if old(self).opens_on_failure() {
                Some((now_ms + old(self).cooldown()) as u64)
            } else {
                old(self).open_deadline()
            },
    {
        let previous = self.failures;
        self.failures = if previous == u32::MAX {
            0
        } else {
            previous + 1
        };
        let failures = if previous == u32::MAX {
            u32::MAX
        } else {
            previous + 1
        };
        if failures >= self.threshold {
            self.open_until = Some(now_ms + self.cooldown_ms);
        }
    }

    /// Whether connections are refused at `now_ms`, with the same effect on
    /// the breaker as `before_connect`.
    pub fn is_open(&mut self, now_ms: u64) -> (open: bool)
        ensures
            final(self).failure_threshold() == old(self).failure_threshold(),
            final(self).cooldown() == old(self).cooldown(),
            match old(self).open_deadline() {
                Some(deadline) => if now_ms < deadline {
                    open && *final(self) == *old(self)
                } else {
                    !open && final(self).open_deadline() is None && final(self).failure_count()
                        == 0
                },
                None => !open && *final(self) == *old(self),
            },
    {
        self.before_connect(now_ms).is_err()
    }
}

/// A token's byte quota is a hard total that never refills: `amount` more
/// bytes fit when `used + amount` stays within `total`, giving the new used
/// count; otherwise the reservation is `BandwidthExhausted`.
pub fn reserve_quota(used: u64, amount: u64, total: u64) -> (result: Result<u64, GatewayError>)
    ensures
        used + amount <= total ==> result == Ok::<u64, GatewayError>((used + amount) as u64),
        used + amount > total ==> result == Err::<u64, GatewayError>(
            GatewayError { code: GatewayErrorCode::BandwidthExhausted },
        ),
{
    match used.checked_add(amount) {
        Some(next) => if next <= total {
            Ok(next)
        } else {
            Err(GatewayError::new(GatewayErrorCode::BandwidthExhausted))
        },
        None => Err(GatewayError::new(GatewayErrorCode::BandwidthExhausted)),
    }
}

} // verus!
