//! What the circuit breaker promises, written out from its settings.

use crate::circuit::CircuitState;
use crate::config::CircuitBreakerConfig;
use vstd::prelude::*;

verus! {

/// A failure that stays short of the threshold adds one to the run and leaves
/// the breaker letting everything through. Any other failure opens it: from then
/// on every delivery is refused that asks less than `open_duration_ms` later,
/// however often it is asked, and the first that asks at that instant or after
/// is admitted.
pub proof fn law_open_duration_is_kept(
    st: CircuitState,
    cb: CircuitBreakerConfig,
    failed: u64,
    now: u64,
)
    ensures
        ({
            let after = st.after_failure(cb, failed);
            let limit = if cb.consecutive_5xx_threshold == 0 {
                1
            } else {
                cb.consecutive_5xx_threshold as int
            };
            let end = failed + if cb.open_duration_ms == 0 {
                1_000_000
            } else {
                cb.open_duration_ms * 1_000_000
            };
            match st {
                CircuitState::Closed { consecutive_failures } if consecutive_failures + 1
                    < limit => {
                    &&& after == (CircuitState::Closed {
                        consecutive_failures: (consecutive_failures + 1) as u32,
                    })
                    &&& after.admits(now)
                    &&& after.after_request(cb, now) == after
                },
                _ => {
                    &&& after == (CircuitState::Open { until: end as u128 })
                    &&& now < end ==> !after.admits(now)
                        && after.after_request(cb, now) == after
                    &&& now >= end ==> after.admits(now)
                },
            }
        }),
{
    assert(0 <= cb.open_duration_ms * 1_000_000 <= u64::MAX * 1_000_000);
}

/// After failures without a success between them a delivery is refused if and
/// only if they are as many as the threshold and the open period since the last
/// of them is not over.
pub proof fn law_run_of_failures(cb: CircuitBreakerConfig, failures: Seq<u64>, now: u64)
    ensures
        ({
            let limit = if cb.consecutive_5xx_threshold == 0 {
                1
            } else {
                cb.consecutive_5xx_threshold as int
            };
            let end = failures.last() + if cb.open_duration_ms == 0 {
                1_000_000
            } else {
                cb.open_duration_ms * 1_000_000
            };
            let st = crate::circuit::after_failures(
                CircuitState::Closed { consecutive_failures: 0 },
                cb,
                failures,
            );
            &&& !st.admits(now) <==> failures.len() >= limit && now < end
            &&& failures.len() < limit ==> st == (CircuitState::Closed {
                consecutive_failures: failures.len() as u32,
            })
            &&& failures.len() >= limit ==> st is Open
        }),
    decreases failures.len(),
{
    if failures.len() > 0 {
        let shorter = failures.drop_last();
        law_run_of_failures(cb, shorter, now);
        law_open_duration_is_kept(
            crate::circuit::after_failures(
                CircuitState::Closed { consecutive_failures: 0 },
                cb,
                shorter,
            ),
            cb,
            failures.last(),
            now,
        );
    }
}

/// The state in which an endpoint starts, and to which a success brings it back,
/// counts no failure.
pub proof fn law_fresh_breaker_counts_nothing(now: u64)
    ensures
        CircuitState::fresh() == (CircuitState::Closed { consecutive_failures: 0 }),
        CircuitState::fresh().admits(now),
{
}

/// A closed breaker admits every delivery and is not changed by that; an open one
/// admits from its instant on, and is then half-open with this delivery counted
/// among the configured probes; a half-open one admits as long as probes remain,
/// and has one less after each. A refusal changes nothing.
pub proof fn law_what_asking_does(st: CircuitState, cb: CircuitBreakerConfig, now: u64)
    ensures
        ({
            let after = st.after_request(cb, now);
            &&& !st.admits(now) ==> after == st
            &&& match st {
                CircuitState::Closed { .. } => st.admits(now) && after == st,
                CircuitState::Open { until } => {
                    &&& st.admits(now) <==> now >= until
                    &&& st.admits(now) ==> (after matches CircuitState::HalfOpen {
                        probes_remaining,
                    } && probes_remaining + 1 == if cb.half_open_probe_count == 0 {
                        1
                    } else {
                        cb.half_open_probe_count as int
                    })
                },
                CircuitState::HalfOpen { probes_remaining: left } => {
                    &&& st.admits(now) <==> left >= 1
                    &&& st.admits(now) ==> (after matches CircuitState::HalfOpen {
                        probes_remaining,
                    } && probes_remaining + 1 == left)
                },
            }
        }),
{
}

/// However often it is asked before its time, an open breaker admits nothing and
/// stays as it is.
pub proof fn law_asking_does_not_open_the_way(until: u128, cb: CircuitBreakerConfig, asks: Seq<u64>)
    requires
        forall|i: int| 0 <= i < asks.len() ==> #[trigger] asks[i] < until,
    ensures
        crate::circuit::admitted(CircuitState::Open { until }, cb, asks) == 0,
        crate::circuit::after_requests(CircuitState::Open { until }, cb, asks)
            == (CircuitState::Open { until }),
    decreases asks.len(),
{
    if asks.len() > 0 {
        assert forall|i: int| 0 <= i < asks.drop_last().len() implies #[trigger] asks.drop_last()[i]
            < until by {
            assert(asks.drop_last()[i] == asks[i]);
        }
        law_asking_does_not_open_the_way(until, cb, asks.drop_last());
        assert(asks[asks.len() - 1] < until);
    }
}

/// Once the open period is over, and until one of them has an outcome, as many
/// deliveries are admitted as `half_open_probe_count` says, and no more.
pub proof fn law_probes_are_counted(until: u128, cb: CircuitBreakerConfig, asks: Seq<u64>)
    requires
        asks.len() > 0,
        asks[0] >= until,
    ensures
        ({
            let limit = if cb.half_open_probe_count == 0 {
                1
            } else {
                cb.half_open_probe_count as int
            };
            crate::circuit::admitted(CircuitState::Open { until }, cb, asks) == if asks.len()
                < limit {
                asks.len() as int
            } else {
                limit
            }
        }),
        crate::circuit::after_requests(CircuitState::Open { until }, cb, asks) is HalfOpen,
{
    crate::circuit::law_half_open_probe_budget(until, cb, asks);
}

} // verus!
