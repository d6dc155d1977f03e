//! The pause between two attempts of a delivery.

use vstd::prelude::*;

verus! {

/// Longest pause between two attempts, in milliseconds: it stays short of two
/// minutes, whatever base a configuration asks for.
pub const MAX_PAUSE_MS: u64 = 119_999;

/// Two to the power of `n`.
pub open spec fn doublings(n: nat) -> nat
    decreases n,
{
    if n == 0 {
        1
    } else {
        2 * doublings((n - 1) as nat)
    }
}

/// The pause before jitter: the configured base, doubled once for each retry
/// after the first, up to what a `u64` holds.
pub open spec fn base_backoff(retry_backoff_ms: u64, retry: u32) -> u64
    recommends
        retry >= 1,
{
    let exact = retry_backoff_ms * doublings((retry - 1) as nat);
    if exact <= u64::MAX {
        exact as u64
    } else {
        u64::MAX
    }
}

/// Jitter in percent, from -20 to 19, as the clock's nanoseconds have it.
pub open spec fn jitter_pct(subsec_nanos: u32) -> int {
    subsec_nanos % 40 - 20
}

/// The base with jitter applied; the jitter is a whole number of milliseconds,
/// rounded towards none.
pub open spec fn jittered(base: u64, pct: int) -> int {
    if pct >= 0 {
        base + base * pct / 100
    } else {
        base - base * -pct / 100
    }
}

/// The pause before the given retry.
pub open spec fn pause_ms(retry_backoff_ms: u64, retry: u32, subsec_nanos: u32) -> int {
    let pause = jittered(base_backoff(retry_backoff_ms, retry), jitter_pct(subsec_nanos));
    if pause < 1 {
        1
    } else if pause > MAX_PAUSE_MS {
        MAX_PAUSE_MS as int
    } else {
        pause
    }
}

proof fn lemma_doublings_positive(n: nat)
    ensures
        doublings(n) >= 1,
    decreases n,
{
    if n > 0 {
        lemma_doublings_positive((n - 1) as nat);
    }
}

/// One more doubling doubles the base, as far as a `u64` holds the result.
proof fn lemma_base_step(retry_backoff_ms: u64, retry: u32)
    requires
        1 <= retry < u32::MAX,
    ensures
        base_backoff(retry_backoff_ms, (retry + 1) as u32) == if 2 * base_backoff(
            retry_backoff_ms,
            retry,
        ) <= u64::MAX {
            2 * base_backoff(retry_backoff_ms, retry)
        } else {
            u64::MAX as int
        },
{
    let d = doublings((retry - 1) as nat);
    assert(doublings(((retry + 1) - 1) as nat) == 2 * d);
    assert(retry_backoff_ms * (2 * d) == 2 * (retry_backoff_ms * d)) by (nonlinear_arith);
    lemma_doublings_positive((retry - 1) as nat);
    assert(retry_backoff_ms * d >= 0) by (nonlinear_arith)
        requires
            d >= 1,
    ;
}

/// A base that cannot grow any more is the base of every later retry.
proof fn lemma_base_stays(retry_backoff_ms: u64, from: u32, retry: u32)
    requires
        1 <= from <= retry,
        base_backoff(retry_backoff_ms, from) == 0 || base_backoff(retry_backoff_ms, from)
            == u64::MAX,
    ensures
        base_backoff(retry_backoff_ms, retry) == base_backoff(retry_backoff_ms, from),
    decreases retry - from,
{
    if from < retry {
        lemma_base_stays(retry_backoff_ms, from, (retry - 1) as u32);
        lemma_base_step(retry_backoff_ms, (retry - 1) as u32);
    }
}

/// The pause before jitter of the given retry, the first being number one.
pub fn base_ms(retry_backoff_ms: u64, retry: u32) -> (r: u64)
    requires
        retry >= 1,
    ensures
        r == base_backoff(retry_backoff_ms, retry),
{
    let mut base: u64 = retry_backoff_ms;
    let mut done: u32 = 1;
    assert(doublings(0) == 1);
    assert(retry_backoff_ms * 1 == retry_backoff_ms);
    while done < retry && base != 0 && base != u64::MAX
        invariant
            1 <= done <= retry,
            base == base_backoff(retry_backoff_ms, done),
        decreases retry - done,
    {
        proof {
            lemma_base_step(retry_backoff_ms, done);
        }
        base = if base > u64::MAX / 2 {
            u64::MAX
        } else {
            2 * base
        };
        done = done + 1;
    }
    proof {
        if done < retry {
            lemma_base_stays(retry_backoff_ms, done, retry);
        }
    }
    base
}

/// How long to pause before the given retry. `subsec_nanos` is the sub-second
/// part of the wall clock, from which the jitter is drawn.
pub fn backoff_ms(retry_backoff_ms: u64, retry: u32, subsec_nanos: u32) -> (r: u64)
    requires
        retry >= 1,
    ensures
        r == pause_ms(retry_backoff_ms, retry, subsec_nanos),
{
    let base: u64 = base_ms(retry_backoff_ms, retry);
    let draw: u32 = subsec_nanos % 40;
    let wide: u128 = base as u128;
    let size: u128 = if draw >= 20 {
        (draw - 20) as u128
    } else {
        (20 - draw) as u128
    };
    assert(0 <= wide * size <= wide * 20) by (nonlinear_arith)
        requires
            0 <= size <= 20,
    ;
    let jitter: u128 = wide * size / 100;
    let pause: u128 = if draw >= 20 {
        wide + jitter
    } else {
        wide - jitter
    };
    if pause < 1 {
        1
    } else if pause > MAX_PAUSE_MS as u128 {
        MAX_PAUSE_MS
    } else {
        pause as u64
    }
}

/// The base starts at the configured backoff and doubles with each retry, until
/// a `u64` cannot hold it.
pub proof fn law_base_doubles(retry_backoff_ms: u64, retry: u32)
    requires
        1 <= retry < u32::MAX,
    ensures
        base_backoff(retry_backoff_ms, 1) == retry_backoff_ms,
        2 * base_backoff(retry_backoff_ms, retry) <= u64::MAX ==> base_backoff(
            retry_backoff_ms,
            (retry + 1) as u32,
        ) == 2 * base_backoff(retry_backoff_ms, retry),
        base_backoff(retry_backoff_ms, (retry + 1) as u32) >= base_backoff(retry_backoff_ms, retry),
{
    assert(doublings(0) == 1);
    assert(retry_backoff_ms * 1 == retry_backoff_ms);
    lemma_base_step(retry_backoff_ms, retry);
}

/// The pause lies within 20 percent of the base, either way, wherever the base
/// leaves room for that between one millisecond and the longest pause.
pub proof fn law_jitter_within_a_fifth(retry_backoff_ms: u64, retry: u32, subsec_nanos: u32)
    requires
        retry >= 1,
    ensures
        ({
            let base = base_backoff(retry_backoff_ms, retry);
            let pause = pause_ms(retry_backoff_ms, retry, subsec_nanos);
            &&& base >= 1 ==> 5 * pause <= 6 * base
            &&& base <= MAX_PAUSE_MS ==> 5 * pause >= 4 * base
        }),
{
    let base = base_backoff(retry_backoff_ms, retry) as int;
    let pct = jitter_pct(subsec_nanos);
    let size = if pct >= 0 {
        pct
    } else {
        -pct
    };
    assert(0 <= base * size <= base * 20) by (nonlinear_arith)
        requires
            0 <= base,
            0 <= size <= 20,
    ;
}

/// No pause is a multi-minute sleep, and none is empty.
pub proof fn law_pause_is_bounded(retry_backoff_ms: u64, retry: u32, subsec_nanos: u32)
    requires
        retry >= 1,
    ensures
        1 <= pause_ms(retry_backoff_ms, retry, subsec_nanos) < 120_000,
{
}

} // verus!
