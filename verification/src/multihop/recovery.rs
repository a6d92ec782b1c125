//! Make-before-break route recovery with no clearnet fallback state. Backoff
//! durations are whole milliseconds.
use vstd::prelude::*;

use crate::multihop::error::{Error, ErrorCode};
use crate::multihop::route::{
    eligible_exit, route_precheck, same_gateway, select_enhanced_route, selected_among,
    EnhancedRoute, GatewayDescriptor, RecentFailure, RoutePolicy,
};

verus! {

#[derive(Clone, Copy, Debug, PartialEq, Eq, Structural)]
pub enum FailureClass {
    Transport,
    CertificateRevoked,
    ProtocolIncompatible,
    ExitDraining,
    Policy,
}

/// What a failed route leads to: another Enhanced route after a backoff, or
/// blocking. There is no direct or clearnet alternative.
#[derive(Clone, Debug, PartialEq, Eq)]
pub enum RecoveryAction {
    ReconnectEnhanced { route: EnhancedRoute, after_ms: u64 },
    Block,
}

#[derive(Clone, Debug)]
pub struct FailClosedRecovery {
    pub initial_backoff_ms: u64,
    pub maximum_backoff_ms: u64,
    consecutive_failures: u8,
}

impl Default for FailClosedRecovery {
    fn default() -> (recovery: Self)
        ensures
            recovery.initial_backoff() == 250,
            recovery.maximum_backoff() == 30000,
            recovery.failure_count() == 0,
    {
        FailClosedRecovery { initial_backoff_ms: 250, maximum_backoff_ms: 30000, consecutive_failures: 0 }
    }
}

pub open spec fn pow2(n: nat) -> nat
    decreases n,
{
    if n == 0 {
        1
    } else {
        2 * pow2((n - 1) as nat)
    }
}

/// The backoff before reconnect attempt number `count`: the initial backoff
/// doubled for each earlier consecutive failure (at most ten times), capped
/// at the maximum, and the maximum where the product overflows.
pub open spec fn backoff_ms(initial: u64, maximum: u64, count: u8) -> nat {
    let exponent: nat = if count == 0 {
        0
    } else if count - 1 > 10 {
        10
    } else {
        (count - 1) as nat
    };
    let product = initial * pow2(exponent);
    if product > u64::MAX || product > maximum {
        maximum as nat
    } else {
        product as nat
    }
}

/// The consecutive-failure count after one more failure: saturating at 16.
pub open spec fn next_failure_count(count: u8) -> u8 {
    if count >= 16 {
        16
    } else {
        (count + 1) as u8
    }
}

/// Whether recovery blocks at once without looking for a route.
pub open spec fn blocks_immediately(recovery: FailClosedRecovery, class: FailureClass) -> bool {
    recovery.initial_backoff() == 0 || recovery.maximum_backoff() < recovery.initial_backoff()
        || class == FailureClass::Policy
}

impl FailClosedRecovery {
    pub closed spec fn failure_count(&self) -> u8 {
        self.consecutive_failures
    }

    pub closed spec fn initial_backoff(&self) -> u64 {
        self.initial_backoff_ms
    }

    pub closed spec fn maximum_backoff(&self) -> u64 {
        self.maximum_backoff_ms
    }

    pub fn on_success(&mut self)
        ensures
            final(self).failure_count() == 0,
            final(self).initial_backoff() == old(self).initial_backoff(),
            final(self).maximum_backoff() == old(self).maximum_backoff(),
    {
        self.consecutive_failures = 0;
    }

    /// Reacts to a failure of the current route: another diverse Enhanced
    /// route after a bounded backoff, or `Block`; never anything else.
    pub fn recover(
        &mut self,
        class: FailureClass,
        entry: &GatewayDescriptor,
        exits: &[GatewayDescriptor],
        policy: &RoutePolicy,
        failures: &[RecentFailure],
    ) -> (result: Result<RecoveryAction, Error>)
        ensures
            final(self).initial_backoff() == old(self).initial_backoff(),
            final(self).maximum_backoff() == old(self).maximum_backoff(),
            blocks_immediately(*old(self), class) ==> result == Ok::<RecoveryAction, Error>(
                RecoveryAction::Block,
            ) && final(self).failure_count() == old(self).failure_count(),
            !blocks_immediately(*old(self), class) ==> {
                &&& final(self).failure_count() == next_failure_count(old(self).failure_count())
                &&& match route_precheck(*entry, *policy) {
                    Err(ErrorCode::InvalidConfiguration) => result matches Err(e) && e.code
                        == ErrorCode::InvalidConfiguration,
                    Err(_) => result == Ok::<RecoveryAction, Error>(RecoveryAction::Block),
                    Ok(()) => if forall|j: int|
                        0 <= j < exits@.len() ==> !eligible_exit(
                            *entry,
                            #[trigger] exits@[j],
                            *policy,
                        ) {
                        result == Ok::<RecoveryAction, Error>(RecoveryAction::Block)
                    } else {
                        result matches Ok(RecoveryAction::ReconnectEnhanced { route, after_ms }) && {
                            &&& after_ms == backoff_ms(
                                old(self).initial_backoff(),
                                old(self).maximum_backoff(),
                                final(self).failure_count(),
                            )
                            &&& old(self).initial_backoff() <= after_ms
                                <= old(self).maximum_backoff()
                            &&& same_gateway(route.entry, *entry)
                            &&& route.protocol_version == policy.required_version
                            &&& exists|k: int|
                                selected_among(
                                    *entry,
                                    exits@,
                                    *policy,
                                    failures@,
                                    k,
                                    exits@.len() as int,
                                ) && same_gateway(route.exit, #[trigger] exits@[k])
                        }
                    },
                }
            },
    {
        if self.initial_backoff_ms == 0 || self.maximum_backoff_ms < self.initial_backoff_ms || class
            == FailureClass::Policy {
            return Ok(RecoveryAction::Block);
        }
        self.consecutive_failures = if self.consecutive_failures >= 16 {
            16
        } else {
            self.consecutive_failures + 1
        };
        let route = match select_enhanced_route(entry, exits, policy, failures) {
            Ok(route) => route,
            Err(error) => {
                if error.code == ErrorCode::PolicyDenied || error.code
                    == ErrorCode::ProtocolIncompatible {
                    return Ok(RecoveryAction::Block);
                }
                return Err(error);
            },
        };
        let count = self.consecutive_failures;
        let exponent: u8 = if count == 0 {
            0
        } else if count - 1 > 10 {
            10
        } else {
            count - 1
        };
        let mut multiplier: u64 = 1;
        let mut e: u8 = 0;
        while e < exponent
            invariant
                e <= exponent <= 10,
                multiplier == pow2(e as nat),
                1 <= multiplier <= 1024,
            decreases exponent - e,
        {
            proof {
                assert(pow2((e + 1) as nat) == 2 * pow2(e as nat));
                if e < 10 {
                    assert(pow2(e as nat) <= 512) by {
                        lemma_pow2_bound(e as nat);
                    }
                }
            }
            multiplier = multiplier * 2;
            e = e + 1;
        }
        let initial = self.initial_backoff_ms;
        let maximum = self.maximum_backoff_ms;
        proof {
            assert(initial * multiplier >= initial) by (nonlinear_arith)
                requires
                    multiplier >= 1,
            ;
        }
        let after_ms = match initial.checked_mul(multiplier) {
            Some(product) => if product < maximum {
                product
            } else {
                maximum
            },
            None => maximum,
        };
        Ok(RecoveryAction::ReconnectEnhanced { route, after_ms })
    }
}

proof fn lemma_pow2_mono(a: nat, b: nat)
    requires
        a <= b,
    ensures
        1 <= pow2(a) <= pow2(b),
    decreases b,
{
    if a < b {
        lemma_pow2_mono(a, (b - 1) as nat);
    } else if a > 0 {
        lemma_pow2_mono((a - 1) as nat, (a - 1) as nat);
    }
}

proof fn lemma_pow2_bound(n: nat)
    requires
        n < 10,
    ensures
        1 <= pow2(n) <= 512,
{
    lemma_pow2_mono(n, 9);
    reveal_with_fuel(pow2, 10);
}

/// The number of failures counted after `i` counted failures from a reset count.
pub open spec fn counted_failures(i: nat) -> nat {
    if i < 16 { i } else { 16 }
}

/// The backoff after the `i`-th counted failure: the initial backoff doubled
/// `i - 1` times, at most ten times, and capped at the maximum.
pub open spec fn series_backoff(initial: u64, maximum: u64, i: nat) -> nat {
    let doublings: nat = if i <= 11 { (i - 1) as nat } else { 10 };
    if initial * pow2(doublings) > maximum {
        maximum as nat
    } else {
        (initial * pow2(doublings)) as nat
    }
}

/// Whether each state after the first is what a counted `recover` call leaves
/// behind the one before it.
pub open spec fn counted_series(states: Seq<FailClosedRecovery>) -> bool {
    forall|i: int|
        0 < i < states.len() ==> {
            &&& #[trigger] states[i].failure_count() == next_failure_count(states[i - 1].failure_count())
            &&& states[i].initial_backoff() == states[i - 1].initial_backoff()
            &&& states[i].maximum_backoff() == states[i - 1].maximum_backoff()
        }
}

proof fn lemma_series_counts(states: Seq<FailClosedRecovery>)
    requires
        states.len() >= 1,
        states[0].failure_count() == 0,
        counted_series(states),
    ensures
        forall|i: int|
            0 <= i < states.len() ==> #[trigger] states[i].failure_count() == counted_failures(i as nat)
                && states[i].initial_backoff() == states[0].initial_backoff()
                && states[i].maximum_backoff() == states[0].maximum_backoff(),
    decreases states.len(),
{
    if states.len() > 1 {
        let prefix = states.drop_last();
        assert forall|i: int| 0 < i < prefix.len() implies {
            &&& #[trigger] prefix[i].failure_count() == next_failure_count(prefix[i - 1].failure_count())
            &&& prefix[i].initial_backoff() == prefix[i - 1].initial_backoff()
            &&& prefix[i].maximum_backoff() == prefix[i - 1].maximum_backoff()
        } by {
            assert(prefix[i] == states[i]);
            assert(prefix[i - 1] == states[i - 1]);
            assert(states[i].failure_count() == next_failure_count(states[i - 1].failure_count()));
        }
        lemma_series_counts(prefix);
        let n = states.len() - 1;
        assert(prefix[n - 1] == states[n - 1]);
        assert(prefix[0] == states[0]);
        assert(states[n].failure_count() == next_failure_count(states[n - 1].failure_count()));
        assert forall|i: int| 0 <= i < states.len() implies #[trigger] states[i].failure_count()
            == counted_failures(i as nat) && states[i].initial_backoff() == states[0].initial_backoff()
            && states[i].maximum_backoff() == states[0].maximum_backoff() by {
            if i < n {
                assert(prefix[i] == states[i]);
            }
        }
    }
}

/// The backoff of a count reached by `i` counted failures.
proof fn lemma_backoff_of_count(initial: u64, maximum: u64, i: nat)
    requires
        i >= 1,
    ensures
        backoff_ms(initial, maximum, counted_failures(i) as u8) == series_backoff(initial, maximum, i),
{
}

/// Backoff over a series of failures is exponential, capped, and reset by
/// success. `states[0]` has a reset count (as `default` and `on_success`
/// leave it), and each next state is what a `recover` call that counts (valid
/// backoff settings, a class other than `Policy`) leaves behind. Then after
/// `i` such calls the count is `min(i, 16)`, and the `i`-th call's reconnect
/// waits the initial backoff doubled `min(i - 1, 10)` times, capped at the
/// maximum.
pub proof fn lemma_backoff_series(states: Seq<FailClosedRecovery>)
    requires
        states.len() >= 1,
        states[0].failure_count() == 0,
        counted_series(states),
    ensures
        forall|i: int|
            0 <= i < states.len() ==> #[trigger] states[i].failure_count() == counted_failures(
                i as nat,
            ),
        forall|i: int|
            1 <= i < states.len() ==> backoff_ms(
                states[0].initial_backoff(),
                states[0].maximum_backoff(),
                #[trigger] states[i].failure_count(),
            ) == series_backoff(states[0].initial_backoff(), states[0].maximum_backoff(), i as nat),
{
    lemma_series_counts(states);
    assert forall|i: int| 1 <= i < states.len() implies backoff_ms(
        states[0].initial_backoff(),
        states[0].maximum_backoff(),
        #[trigger] states[i].failure_count(),
    ) == series_backoff(states[0].initial_backoff(), states[0].maximum_backoff(), i as nat) by {
        lemma_backoff_of_count(states[0].initial_backoff(), states[0].maximum_backoff(), i as nat);
        assert(states[i].failure_count() == counted_failures(i as nat) as u8);
    }
}

} // verus!
