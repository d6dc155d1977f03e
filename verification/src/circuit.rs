//! The circuit breaker of one endpoint, as a state machine.
//!
//! Time is counted in nanoseconds from a fixed origin, so that an instant is a
//! plain number; a `u128` holds every instant that a `u64` clock and a `u64`
//! number of milliseconds can add up to.

use crate::config::CircuitBreakerConfig;
use vstd::prelude::*;

verus! {

/// Nanoseconds in a millisecond.
pub const NANOS_PER_MS: u128 = 1_000_000;

/// State of one endpoint's breaker.
#[derive(Debug, Clone, Copy, PartialEq, Eq, Structural)]
pub enum CircuitState {
    /// Deliveries pass; this many failures have come since the last success.
    Closed { consecutive_failures: u32 },
    /// Nothing passes before the instant `until`.
    Open { until: u128 },
    /// This many more deliveries pass as probes.
    HalfOpen { probes_remaining: u32 },
}

/// `n`, or one where `n` is less.
pub open spec fn at_least_one(n: int) -> int {
    if n >= 1 {
        n
    } else {
        1
    }
}

impl CircuitBreakerConfig {
    /// Failures in a row that open the breaker.
    pub open spec fn threshold(self) -> int {
        at_least_one(self.consecutive_5xx_threshold as int)
    }

    /// Deliveries admitted while half-open, the first one included.
    pub open spec fn probes(self) -> int {
        at_least_one(self.half_open_probe_count as int)
    }

    /// The instant at which a breaker that opens at `now` admits a probe.
    pub open spec fn reopens_at(self, now: u64) -> int {
        now + at_least_one(self.open_duration_ms as int) * NANOS_PER_MS
    }
}

impl CircuitState {
    /// The state of an endpoint that nothing was ever sent to.
    pub open spec fn fresh() -> CircuitState {
        CircuitState::Closed { consecutive_failures: 0 }
    }

    /// What every reachable state satisfies: a closed breaker is short of the
    /// threshold, and a half-open one has used up at least one probe.
    pub open spec fn wf(self, cb: CircuitBreakerConfig) -> bool {
        match self {
            CircuitState::Closed { consecutive_failures } => consecutive_failures < cb.threshold(),
            CircuitState::Open { .. } => true,
            CircuitState::HalfOpen { probes_remaining } => probes_remaining < cb.probes(),
        }
    }

    /// Whether a delivery that asks at `now` is let through.
    pub open spec fn admits(self, now: u64) -> bool {
        match self {
            CircuitState::Closed { .. } => true,
            CircuitState::Open { until } => now >= until,
            CircuitState::HalfOpen { probes_remaining } => probes_remaining > 0,
        }
    }

    /// The state after a delivery asked at `now`, let through or not. The
    /// delivery that finds the open period over is itself the first probe.
    pub open spec fn after_request(self, cb: CircuitBreakerConfig, now: u64) -> CircuitState {
        match self {
            CircuitState::Open { until } if now >= until => CircuitState::HalfOpen {
                probes_remaining: (cb.probes() - 1) as u32,
            },
            CircuitState::HalfOpen { probes_remaining } if probes_remaining > 0 =>
                CircuitState::HalfOpen { probes_remaining: (probes_remaining - 1) as u32 },
            _ => self,
        }
    }

    /// The state after a delivery failed at `now` on the server's side.
    pub open spec fn after_failure(self, cb: CircuitBreakerConfig, now: u64) -> CircuitState {
        match self {
            CircuitState::Closed { consecutive_failures } if consecutive_failures + 1
                < cb.threshold() => CircuitState::Closed {
                consecutive_failures: (consecutive_failures + 1) as u32,
            },
            _ => CircuitState::Open { until: cb.reopens_at(now) as u128 },
        }
    }

    /// The name under which the state is published.
    pub fn label(&self) -> (r: &'static str)
        ensures
            r@ == match *self {
                CircuitState::Closed { .. } => "closed"@,
                CircuitState::Open { .. } => "open"@,
                CircuitState::HalfOpen { .. } => "half_open"@,
            },
    {
        match self {
            CircuitState::Closed { .. } => "closed",
            CircuitState::Open { .. } => "open",
            CircuitState::HalfOpen { .. } => "half_open",
        }
    }

    /// The series of the published state, one for each name, with whether it is
    /// the current one.
    pub fn series(&self) -> (r: Vec<(&'static str, bool)>)
        ensures
            r@.len() == 3,
            r@[0].0@ == "closed"@ && (r@[0].1 <==> *self is Closed),
            r@[1].0@ == "open"@ && (r@[1].1 <==> *self is Open),
            r@[2].0@ == "half_open"@ && (r@[2].1 <==> *self is HalfOpen),
    {
        let (closed, open, half_open) = match self {
            CircuitState::Closed { .. } => (true, false, false),
            CircuitState::Open { .. } => (false, true, false),
            CircuitState::HalfOpen { .. } => (false, false, true),
        };
        vec![("closed", closed), ("open", open), ("half_open", half_open)]
    }

    /// Asks for a delivery at `now`.
    pub fn request(self, cb: &CircuitBreakerConfig, now: u64) -> (r: (CircuitState, bool))
        ensures
            r.0 == self.after_request(*cb, now),
            r.1 == self.admits(now),
            self.wf(*cb) ==> r.0.wf(*cb),
    {
        match self {
            CircuitState::Closed { .. } => (self, true),
            CircuitState::Open { until } => {
                if now as u128 >= until {
                    let probes: u32 = if cb.half_open_probe_count > 1 {
                        cb.half_open_probe_count
                    } else {
                        1
                    };
                    (CircuitState::HalfOpen { probes_remaining: probes - 1 }, true)
                } else {
                    (self, false)
                }
            },
            CircuitState::HalfOpen { probes_remaining } => {
                if probes_remaining > 0 {
                    (CircuitState::HalfOpen { probes_remaining: probes_remaining - 1 }, true)
                } else {
                    (self, false)
                }
            },
        }
    }

    /// Records a failure at `now`.
    pub fn fail(self, cb: &CircuitBreakerConfig, now: u64) -> (r: CircuitState)
        requires
            self.wf(*cb),
        ensures
            r == self.after_failure(*cb, now),
            r.wf(*cb),
    {
        let open_ms: u64 = if cb.open_duration_ms > 1 {
            cb.open_duration_ms
        } else {
            1
        };
        let reopened = CircuitState::Open { until: now as u128 + open_ms as u128 * NANOS_PER_MS };
        let threshold: u32 = if cb.consecutive_5xx_threshold > 1 {
            cb.consecutive_5xx_threshold
        } else {
            1
        };
        match self {
            CircuitState::Closed { consecutive_failures } => {
                let n: u32 = consecutive_failures + 1;
                if n >= threshold {
                    reopened
                } else {
                    CircuitState::Closed { consecutive_failures: n }
                }
            },
            CircuitState::HalfOpen { .. } | CircuitState::Open { .. } => reopened,
        }
    }
}

/// The state after failures at the given instants, with no success between.
pub open spec fn after_failures(
    st: CircuitState,
    cb: CircuitBreakerConfig,
    nows: Seq<u64>,
) -> CircuitState
    decreases nows.len(),
{
    if nows.len() == 0 {
        st
    } else {
        after_failures(st, cb, nows.drop_last()).after_failure(cb, nows.last())
    }
}

/// The state after deliveries asked at the given instants, none of which has
/// had an outcome yet.
pub open spec fn after_requests(
    st: CircuitState,
    cb: CircuitBreakerConfig,
    nows: Seq<u64>,
) -> CircuitState
    decreases nows.len(),
{
    if nows.len() == 0 {
        st
    } else {
        after_requests(st, cb, nows.drop_last()).after_request(cb, nows.last())
    }
}

/// How many of the deliveries that ask at the given instants are let through.
pub open spec fn admitted(st: CircuitState, cb: CircuitBreakerConfig, nows: Seq<u64>) -> nat
    decreases nows.len(),
{
    if nows.len() == 0 {
        0
    } else {
        admitted(st, cb, nows.drop_last()) + if after_requests(
            st,
            cb,
            nows.drop_last(),
        ).admits(nows.last()) {
            1nat
        } else {
            0nat
        }
    }
}

/// A run of failures shorter than the threshold leaves the breaker closed, with
/// the length of the run as its count.
pub proof fn law_short_run_keeps_closed(cb: CircuitBreakerConfig, nows: Seq<u64>)
    requires
        nows.len() < cb.threshold(),
    ensures
        after_failures(CircuitState::fresh(), cb, nows) == (CircuitState::Closed {
            consecutive_failures: nows.len() as u32,
        }),
    decreases nows.len(),
{
    if nows.len() > 0 {
        law_short_run_keeps_closed(cb, nows.drop_last());
    }
}

/// A run of failures that reaches the threshold leaves the breaker open, until
/// the open period has passed since the last of them.
pub proof fn law_threshold_opens(cb: CircuitBreakerConfig, nows: Seq<u64>)
    requires
        nows.len() >= cb.threshold(),
    ensures
        after_failures(CircuitState::fresh(), cb, nows) == (CircuitState::Open {
            until: cb.reopens_at(nows.last()) as u128,
        }),
    decreases nows.len(),
{
    if nows.len() == cb.threshold() {
        law_short_run_keeps_closed(cb, nows.drop_last());
    } else {
        law_threshold_opens(cb, nows.drop_last());
    }
}

/// A breaker that opened at `failed` refuses every delivery before the open
/// period is over, stays as it is meanwhile, and admits one as soon as the
/// period is over.
pub proof fn law_open_period(
    st: CircuitState,
    cb: CircuitBreakerConfig,
    failed: u64,
    now: u64,
)
    requires
        st.after_failure(cb, failed) is Open,
    ensures
        st.after_failure(cb, failed).admits(now) <==> now >= cb.reopens_at(failed),
        now < cb.reopens_at(failed) ==> st.after_failure(cb, failed).after_request(cb, now)
            == st.after_failure(cb, failed),
        now >= cb.reopens_at(failed) ==> st.after_failure(cb, failed).after_request(
            cb,
            now,
        ) is HalfOpen,
{
    assert(0 <= cb.reopens_at(failed) <= u128::MAX);
}

/// One failure re-opens a half-open breaker at once.
pub proof fn law_probe_failure_reopens(st: CircuitState, cb: CircuitBreakerConfig, now: u64)
    requires
        st is HalfOpen,
    ensures
        st.after_failure(cb, now) == (CircuitState::Open { until: cb.reopens_at(now) as u128 }),
        !st.after_failure(cb, now).admits(now),
{
    assert(now < cb.reopens_at(now) <= u128::MAX);
}

/// While half-open, and until one of them has an outcome, exactly the
/// configured number of deliveries is admitted, counting the one that found the
/// open period over; all the later ones are refused.
pub proof fn law_half_open_probe_budget(
    until: u128,
    cb: CircuitBreakerConfig,
    nows: Seq<u64>,
)
    requires
        nows.len() > 0,
        nows[0] >= until,
    ensures
        admitted(CircuitState::Open { until }, cb, nows) == if nows.len() < cb.probes() {
            nows.len() as int
        } else {
            cb.probes()
        },
        after_requests(CircuitState::Open { until }, cb, nows) == (CircuitState::HalfOpen {
            probes_remaining: if nows.len() < cb.probes() {
                (cb.probes() - nows.len()) as u32
            } else {
                0
            },
        }),
    decreases nows.len(),
{
    let st = CircuitState::Open { until };
    if nows.len() == 1 {
        assert(nows.drop_last() =~= Seq::<u64>::empty());
        assert(after_requests(st, cb, nows.drop_last()) == st);
        assert(admitted(st, cb, nows.drop_last()) == 0);
    } else {
        law_half_open_probe_budget(until, cb, nows.drop_last());
    }
}

} // verus!
