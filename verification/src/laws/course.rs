//! The course of a delivery: what each reply, resolution and pause leads to,
//! written out from the configuration and the endpoint.

use crate::circuit::CircuitState;
use crate::config::ConfigView;
use crate::delivery::{
    AttemptReply, DeliveryAction, DeliveryOutcome, JobView, PhaseView, SignalView,
};
use crate::target::{AddressView, DropReason, PinView, TargetView, UrlPartsView};
use vstd::prelude::*;

verus! {

/// An endpoint that no delivery was ever made to has a closed breaker without a
/// failure; every other has the breaker that was last kept for its URL.
pub proof fn law_breaker_of_an_endpoint(
    circuits: Map<Seq<char>, CircuitState>,
    url: Seq<char>,
    other: Seq<char>,
    st: CircuitState,
)
    ensures
        !circuits.dom().contains(url) ==> crate::delivery::circuit_of(circuits, url) == (
        CircuitState::Closed { consecutive_failures: 0 }),
        crate::delivery::circuit_of(circuits.insert(url, st), url) == st,
        other != url ==> crate::delivery::circuit_of(circuits.insert(url, st), other)
            == crate::delivery::circuit_of(circuits, other),
{
}

/// Whether a reply leaves the event undelivered, from an address that may
/// answer: no answer at all, or one whose status is not in the two hundreds.
pub open spec fn fails(reply: AttemptReply) -> bool {
    match reply {
        AttemptReply::Failed => true,
        AttemptReply::Response { status, remote_blocked } => !remote_blocked && !(200 <= status
            <= 299),
    }
}

proof fn lemma_doublings(n: nat)
    ensures
        crate::backoff::doublings(n) == vstd::arithmetic::power2::pow2(n),
        vstd::arithmetic::power2::pow2(n) >= 1,
    decreases n,
{
    if n == 0 {
        vstd::arithmetic::power2::lemma2_to64();
    } else {
        lemma_doublings((n - 1) as nat);
        vstd::arithmetic::power2::lemma_pow2_unfold(n);
    }
}

/// Whether `ms` is the pause after attempt number `attempt`, the first being
/// number nought: `retry_backoff_ms` doubled `attempt` times, within 20 percent
/// of it as `subsec_nanos` draws the jitter, in whole milliseconds rounded
/// towards the undisturbed pause, at least one millisecond and short of two
/// minutes.
pub open spec fn is_pause_after(
    retry_backoff_ms: u64,
    attempt: u32,
    subsec_nanos: u32,
    ms: u64,
) -> bool {
    let exact = retry_backoff_ms * vstd::arithmetic::power2::pow2(attempt as nat);
    let percent = 80 + subsec_nanos % 40;
    &&& 1 <= ms < 120_000
    &&& exact >= 1 ==> 5 * ms <= 6 * exact
    &&& exact < 120_000 ==> 5 * ms >= 4 * exact
    &&& 1 <= exact * percent <= 11_999_900 ==> {
        &&& -100 < 100 * ms - exact * percent < 100
        &&& percent >= 100 ==> 100 * ms <= exact * percent
        &&& percent <= 100 ==> 100 * ms >= exact * percent
    }
    &&& exact * percent >= 11_999_900 ==> ms == 119_999
    &&& exact == 0 ==> ms == 1
}

/// The pause before the retry after attempt number `attempt`, and before jitter
/// `retry_backoff_ms` doubled `attempt` times, as far as a `u64` holds it.
pub proof fn law_pause_of_a_retry(retry_backoff_ms: u64, attempt: u32, subsec_nanos: u32)
    requires
        attempt < u32::MAX,
    ensures
        is_pause_after(
            retry_backoff_ms,
            attempt,
            subsec_nanos,
            crate::backoff::pause_ms(
                retry_backoff_ms,
                (attempt + 1) as u32,
                subsec_nanos,
            ) as u64,
        ),
        ({
            let exact = retry_backoff_ms * vstd::arithmetic::power2::pow2(attempt as nat);
            crate::backoff::base_backoff(retry_backoff_ms, (attempt + 1) as u32) == if exact
                <= u64::MAX {
                exact
            } else {
                u64::MAX as int
            }
        }),
{
    lemma_doublings(attempt as nat);
    let exact = retry_backoff_ms * vstd::arithmetic::power2::pow2(attempt as nat);
    let retry = (attempt + 1) as u32;
    assert((retry - 1) as nat == attempt as nat);
    let base = crate::backoff::base_backoff(retry_backoff_ms, retry) as int;
    assert(exact >= 0) by (nonlinear_arith)
        requires
            exact == retry_backoff_ms * vstd::arithmetic::power2::pow2(attempt as nat),
            vstd::arithmetic::power2::pow2(attempt as nat) >= 1,
    ;
    assert(base == if exact <= u64::MAX {
        exact
    } else {
        u64::MAX as int
    });
    let percent = 80 + subsec_nanos % 40;
    let pct = crate::backoff::jitter_pct(subsec_nanos);
    assert(pct == percent - 100);
    assert(base * percent == 100 * base + base * pct) by (nonlinear_arith)
        requires
            pct == percent - 100,
    ;
    assert(base * -pct == -(base * pct)) by (nonlinear_arith);
    assert(80 * base <= base * percent <= 119 * base) by (nonlinear_arith)
        requires
            80 <= percent <= 119,
            base >= 0,
    ;
    assert(80 * exact <= exact * percent) by (nonlinear_arith)
        requires
            80 <= percent,
            exact >= 0,
    ;
}

/// In a delivery whose attempt fails while retries are left, the pause that
/// follows is the configured backoff, doubled once for every attempt before this
/// one, within 20 percent, and the next attempt follows it.
pub proof fn law_pause_doubles_with_each_attempt(
    config: ConfigView,
    circuits: Map<Seq<char>, CircuitState>,
    job: JobView,
    client: PinView,
    attempt: u32,
    reply: AttemptReply,
    now: u64,
    subsec_nanos: u32,
)
    requires
        fails(reply),
        attempt < config.max_retries,
    ensures
        ({
            let s = crate::delivery::delivery_step(
                config,
                circuits,
                job,
                PhaseView::Sending { client, attempt },
                SignalView::Replied { reply, now, subsec_nanos },
            );
            let next = crate::delivery::delivery_step(
                config,
                s.circuits,
                job,
                s.phase,
                SignalView::Rested,
            );
            &&& s.action matches DeliveryAction::Sleep { ms } && is_pause_after(
                config.retry_backoff_ms,
                attempt,
                subsec_nanos,
                ms,
            )
            &&& next.action == DeliveryAction::Send
            &&& next.phase == (PhaseView::Sending { client, attempt: (attempt + 1) as u32 })
        }),
{
    law_pause_of_a_retry(config.retry_backoff_ms, attempt, subsec_nanos);
}

/// In a delivery that keeps failing the pause before the n-th retry is
/// `retry_backoff_ms` times two to the power of n - 1, within 20 percent, for
/// every n up to `max_retries`; the failure after the last retry ends it.
pub proof fn law_pauses_of_a_failing_delivery(
    config: ConfigView,
    circuits: Map<Seq<char>, CircuitState>,
    job: JobView,
    client: PinView,
    replies: Seq<(AttemptReply, u64, u32)>,
    last: (AttemptReply, u64, u32),
)
    requires
        replies.len() <= config.max_retries,
        forall|i: int| 0 <= i < replies.len() ==> fails((#[trigger] replies[i]).0),
        fails(last.0),
    ensures
        ({
            let course = crate::delivery::replies_and_rests(replies).push(
                SignalView::Replied { reply: last.0, now: last.1, subsec_nanos: last.2 },
            );
            let end = crate::delivery::after_signals(
                config,
                circuits,
                job,
                PhaseView::Sending { client, attempt: 0 },
                course,
            );
            &&& replies.len() < config.max_retries ==> (end.action matches DeliveryAction::Sleep {
                ms,
            } && is_pause_after(config.retry_backoff_ms, replies.len() as u32, last.2, ms))
            &&& replies.len() == config.max_retries ==> end.action == (DeliveryAction::Stop {
                outcome: DeliveryOutcome::Exhausted,
            })
            &&& crate::delivery::sends(
                config,
                circuits,
                job,
                PhaseView::Sending { client, attempt: 0 },
                course,
            ) == replies.len()
        }),
{
    let sending = PhaseView::Sending { client, attempt: 0 };
    let so_far = crate::delivery::replies_and_rests(replies);
    assert forall|i: int| 0 <= i < replies.len() implies !(#[trigger] replies[i]).0.blocked()
        && !replies[i].0.accepted() by {
        assert(fails(replies[i].0));
    }
    crate::delivery::law_failures_use_up_the_retries(
        config,
        circuits,
        job,
        client,
        replies,
        last,
    );
    let course = so_far.push(
        SignalView::Replied { reply: last.0, now: last.1, subsec_nanos: last.2 },
    );
    assert(course.drop_last() =~= so_far);
    let before = crate::delivery::after_signals(config, circuits, job, sending, so_far);
    if replies.len() < config.max_retries {
        law_pause_doubles_with_each_attempt(
            config,
            before.circuits,
            job,
            client,
            replies.len() as u32,
            last.0,
            last.1,
            last.2,
        );
    }
}

/// What a reply decides. One from a blocked address ends the delivery and counts
/// for nothing. A status in the two hundreds delivers the event and closes the
/// breaker. Any other reply is a failure, which ends the delivery where no retry
/// is left; it counts against the breaker if and only if there was no answer or
/// its status is in the five hundreds. A breaker that a reply counts for is
/// published as it then stands, and no other breaker is touched.
pub proof fn law_what_a_reply_decides(
    config: ConfigView,
    circuits: Map<Seq<char>, CircuitState>,
    job: JobView,
    client: PinView,
    attempt: u32,
    reply: AttemptReply,
    now: u64,
    subsec_nanos: u32,
    other: Seq<char>,
)
    ensures
        ({
            let s = crate::delivery::delivery_step(
                config,
                circuits,
                job,
                PhaseView::Sending { client, attempt },
                SignalView::Replied { reply, now, subsec_nanos },
            );
            let url = job.endpoint.url;
            let before = crate::delivery::circuit_of(circuits, url);
            let after = crate::delivery::circuit_of(s.circuits, url);
            let counts = fails(reply) && match reply {
                AttemptReply::Failed => true,
                AttemptReply::Response { status, .. } => 500 <= status <= 599,
            };
            let delivered = reply matches AttemptReply::Response { status, remote_blocked }
                && !remote_blocked && 200 <= status <= 299;
            let blocked = reply matches AttemptReply::Response { remote_blocked, .. }
                && remote_blocked;
            &&& blocked <==> s.action == (DeliveryAction::Stop {
                outcome: DeliveryOutcome::RebindingBlocked,
            })
            &&& delivered <==> s.action == (DeliveryAction::Stop {
                outcome: DeliveryOutcome::Delivered,
            })
            &&& fails(reply) && attempt >= config.max_retries <==> s.action == (
            DeliveryAction::Stop { outcome: DeliveryOutcome::Exhausted })
            &&& fails(reply) && attempt < config.max_retries <==> s.action is Sleep
            &&& s.phase == if fails(reply) && attempt < config.max_retries {
                PhaseView::Pausing { client, attempt: (attempt + 1) as u32 }
            } else {
                PhaseView::Finished
            }
            &&& delivered ==> after == (CircuitState::Closed { consecutive_failures: 0 })
            &&& counts ==> after == before.after_failure(config.circuit_breaker, now)
            &&& !delivered && !counts ==> s.circuits == circuits
            &&& s.published == if delivered || counts {
                Some(after)
            } else {
                None
            }
            &&& s.request is None
            &&& other != url ==> crate::delivery::circuit_of(s.circuits, other)
                == crate::delivery::circuit_of(circuits, other)
        }),
{
}

/// How a delivery starts. It is short-circuited if and only if the endpoint's
/// breaker is open and its time has not come, or is half-open with no probe
/// left; the breaker then stays as it is. Otherwise it is dropped if the URL
/// does not parse, names no host or has no port, in that order, and else its
/// host and port are resolved. A breaker that turns half-open has this delivery
/// as its first probe, and is published; a half-open one has one probe less.
pub proof fn law_how_a_delivery_starts(
    config: ConfigView,
    circuits: Map<Seq<char>, CircuitState>,
    job: JobView,
    now: u64,
    other: Seq<char>,
)
    ensures
        ({
            let s = crate::delivery::delivery_step(
                config,
                circuits,
                job,
                PhaseView::Start,
                SignalView::Begin { now },
            );
            let url = job.endpoint.url;
            let before = crate::delivery::circuit_of(circuits, url);
            let after = crate::delivery::circuit_of(s.circuits, url);
            let probes = config.circuit_breaker.half_open_probe_count;
            let refused = match before {
                CircuitState::Closed { .. } => false,
                CircuitState::Open { until } => now < until,
                CircuitState::HalfOpen { probes_remaining } => probes_remaining == 0,
            };
            &&& refused <==> s.action == (DeliveryAction::Stop {
                outcome: DeliveryOutcome::ShortCircuited,
            })
            &&& !refused ==> match crate::target::url_parts(url) {
                None => s.action == (DeliveryAction::Stop {
                    outcome: DeliveryOutcome::Dropped { reason: DropReason::UrlUnparseable },
                }),
                Some(parts) => if parts.host is None {
                    s.action == (DeliveryAction::Stop {
                        outcome: DeliveryOutcome::Dropped { reason: DropReason::NoHost },
                    })
                } else if parts.port is None {
                    s.action == (DeliveryAction::Stop {
                        outcome: DeliveryOutcome::Dropped { reason: DropReason::NoPort },
                    })
                } else {
                    &&& s.action == DeliveryAction::Resolve
                    &&& s.phase == (PhaseView::Resolving {
                        target: TargetView { host: parts.host->0, port: parts.port->0 },
                    })
                },
            }
            &&& s.action is Stop <==> s.phase is Finished
            &&& s.request is None
            &&& if refused {
                after == before
            } else {
                match before {
                    CircuitState::Closed { .. } => after == before,
                    CircuitState::Open { .. } => after == (CircuitState::HalfOpen {
                        probes_remaining: if probes == 0 {
                            0
                        } else {
                            (probes - 1) as u32
                        },
                    }),
                    CircuitState::HalfOpen { probes_remaining } => after == (
                    CircuitState::HalfOpen { probes_remaining: (probes_remaining - 1) as u32 }),
                }
            }
            &&& s.published == if before is Open && !refused {
                Some(after)
            } else {
                None
            }
            &&& other != url ==> crate::delivery::circuit_of(s.circuits, other)
                == crate::delivery::circuit_of(circuits, other)
        }),
{
}

/// Whether `i` is the place of the first address that an endpoint may be
/// delivered to: the first of all where it opts into private ones, and else the
/// first that is not private.
pub open spec fn is_first_deliverable(
    addresses: Seq<AddressView>,
    allow_private_backends: bool,
    i: int,
) -> bool {
    &&& 0 <= i < addresses.len()
    &&& allow_private_backends ==> i == 0
    &&& !allow_private_backends ==> {
        &&& !addresses[i].private
        &&& forall|j: int| 0 <= j < i ==> (#[trigger] addresses[j]).private
    }
}

proof fn lemma_first_deliverable(addresses: Seq<AddressView>, allow_private: bool)
    ensures
        match crate::target::first_allowed(addresses, allow_private) {
            Some(a) => exists|i: int| #[trigger]
                is_first_deliverable(addresses, allow_private, i) && addresses[i] == a,
            None => !(addresses.len() > 0 && allow_private) && forall|j: int|
                0 <= j < addresses.len() ==> (#[trigger] addresses[j]).private,
        },
    decreases addresses.len(),
{
    if addresses.len() > 0 {
        if allow_private || !addresses[0].private {
            assert(is_first_deliverable(addresses, allow_private, 0));
        } else {
            let rest = addresses.drop_first();
            lemma_first_deliverable(rest, allow_private);
            match crate::target::first_allowed(rest, allow_private) {
                Some(a) => {
                    let i = choose|i: int| #[trigger]
                        is_first_deliverable(rest, allow_private, i) && rest[i] == a;
                    assert forall|j: int| 0 <= j < i + 1 implies (
                    #[trigger] addresses[j]).private by {
                        if j > 0 {
                            assert(rest[j - 1] == addresses[j]);
                        }
                    }
                    assert(is_first_deliverable(addresses, allow_private, i + 1));
                },
                None => {
                    assert forall|j: int| 0 <= j < addresses.len() implies (
                    #[trigger] addresses[j]).private by {
                        if j > 0 {
                            assert(rest[j - 1] == addresses[j]);
                        }
                    }
                },
            }
        }
    }
}

/// The client for a host and what it was resolved to, whoever asks for it.
pub proof fn law_pinned_client(
    timeout_ms: u64,
    host: Seq<char>,
    resolved: Option<Seq<AddressView>>,
    allow: bool,
)
    ensures
        match crate::target::pin(timeout_ms, host, resolved, allow) {
            Ok(client) => {
                &&& resolved is Some
                &&& exists|i: int| #[trigger]
                    is_first_deliverable(resolved->0, allow, i) && resolved->0[i] == client.address
                &&& client.host == host
                &&& client.timeout_ms == timeout_ms
                &&& client.max_idle_per_host == 5
                &&& !client.follow_redirects
            },
            Err(reason) => match resolved {
                None => reason == DropReason::ResolutionFailed,
                Some(addresses) => if addresses.len() == 0 {
                    reason == DropReason::NoAddresses
                } else {
                    &&& reason == DropReason::PrivateOnly
                    &&& !allow
                    &&& forall|j: int|
                        0 <= j < addresses.len() ==> (#[trigger] addresses[j]).private
                },
            },
        },
{
    if let Some(addresses) = resolved {
        lemma_first_deliverable(addresses, allow);
    }
}

/// What a resolution decides. A host that could not be resolved, one without an
/// address, and one with private addresses only where the endpoint does not opt
/// in, each ends the delivery. Otherwise the client is pinned to the first
/// address that may be delivered to, under the name of the target, with the
/// configured timeout, five idle connections and no redirects.
pub proof fn law_what_a_resolution_decides(
    config: ConfigView,
    circuits: Map<Seq<char>, CircuitState>,
    job: JobView,
    target: TargetView,
    resolved: Option<Seq<AddressView>>,
)
    ensures
        ({
            let s = crate::delivery::delivery_step(
                config,
                circuits,
                job,
                PhaseView::Resolving { target },
                SignalView::Resolved { addresses: resolved },
            );
            let allow = job.endpoint.allow_private_backends;
            &&& s.circuits == circuits
            &&& s.published is None
            &&& s.request is None
            &&& s.action is Stop <==> s.phase is Finished
            &&& match resolved {
                None => s.action == (DeliveryAction::Stop {
                    outcome: DeliveryOutcome::Dropped { reason: DropReason::ResolutionFailed },
                }),
                Some(addresses) => if addresses.len() == 0 {
                    s.action == (DeliveryAction::Stop {
                        outcome: DeliveryOutcome::Dropped { reason: DropReason::NoAddresses },
                    })
                } else if !allow && forall|j: int|
                    0 <= j < addresses.len() ==> (#[trigger] addresses[j]).private {
                    s.action == (DeliveryAction::Stop {
                        outcome: DeliveryOutcome::Dropped { reason: DropReason::PrivateOnly },
                    })
                } else {
                    &&& s.action == DeliveryAction::BuildClient
                    &&& s.phase matches PhaseView::Building { client } && {
                        &&& exists|i: int| #[trigger]
                            is_first_deliverable(addresses, allow, i) && addresses[i]
                                == client.address
                        &&& client.host == target.host
                        &&& client.timeout_ms == config.timeout_ms
                        &&& client.max_idle_per_host == 5
                        &&& !client.follow_redirects
                    }
                },
            }
        }),
{
    if let Some(addresses) = resolved {
        let allow = job.endpoint.allow_private_backends;
        lemma_first_deliverable(addresses, allow);
        if crate::target::first_allowed(addresses, allow) is Some {
            let a = crate::target::first_allowed(addresses, allow)->0;
            let i = choose|i: int| #[trigger]
                is_first_deliverable(addresses, allow, i) && addresses[i] == a;
            assert(allow || !addresses[i].private);
        }
    }
}

/// The request of a delivery, and its headers, written out.
pub proof fn law_request_of_a_job(job: JobView)
    ensures
        ({
            let request = job.request();
            let own = job.endpoint.headers;
            &&& request.method == crate::delivery::Method::Post
            &&& request.url == job.endpoint.url
            &&& request.body == job.payload
            &&& request.headers == crate::delivery::request_header_views(job.endpoint)
            &&& request.headers.len() == 1 + own.len()
            &&& request.headers[0] == ("content-type"@, "application/json"@)
            &&& forall|i: int| 0 <= i < own.len() ==> request.headers[i + 1] == #[trigger] own[i]
        }),
{
}

/// A client that was built leads to the first request; one that could not be
/// built ends the delivery.
pub proof fn law_what_a_built_client_decides(
    config: ConfigView,
    circuits: Map<Seq<char>, CircuitState>,
    job: JobView,
    client: PinView,
    built: bool,
)
    ensures
        ({
            let s = crate::delivery::delivery_step(
                config,
                circuits,
                job,
                PhaseView::Building { client },
                SignalView::ClientBuilt { built },
            );
            &&& s.circuits == circuits
            &&& s.published is None
            &&& built ==> s.action == DeliveryAction::Send && s.phase == (PhaseView::Sending {
                client,
                attempt: 0,
            })
            &&& !built ==> s.phase is Finished && s.action == (DeliveryAction::Stop {
                outcome: DeliveryOutcome::Dropped { reason: DropReason::ClientBuildFailed },
            })
        }),
{
}

/// Only the signal that a phase waits for has any effect.
pub proof fn law_stray_signals_do_nothing(
    config: ConfigView,
    circuits: Map<Seq<char>, CircuitState>,
    job: JobView,
    phase: PhaseView,
    signal: SignalView,
)
    ensures
        ({
            let s = crate::delivery::delivery_step(config, circuits, job, phase, signal);
            let awaited = match phase {
                PhaseView::Start => signal is Begin,
                PhaseView::Resolving { .. } => signal is Resolved,
                PhaseView::Building { .. } => signal is ClientBuilt,
                PhaseView::Sending { .. } => signal is Replied,
                PhaseView::Pausing { .. } => signal is Rested,
                PhaseView::Finished => false,
            };
            &&& s.action == DeliveryAction::Wait <==> !awaited
            &&& !awaited ==> s.circuits == circuits && s.phase == phase && s.published is None
        }),
{
}

/// The end of a pause is followed by the attempt that it was the pause before,
/// with the same client.
pub proof fn law_attempt_follows_pause(
    config: ConfigView,
    circuits: Map<Seq<char>, CircuitState>,
    job: JobView,
    client: PinView,
    attempt: u32,
)
    ensures
        ({
            let s = crate::delivery::delivery_step(
                config,
                circuits,
                job,
                PhaseView::Pausing { client, attempt },
                SignalView::Rested,
            );
            &&& s.circuits == circuits
            &&& s.published is None
            &&& s.action == DeliveryAction::Send
            &&& s.phase == (PhaseView::Sending { client, attempt })
        }),
{
}

/// What is read of a URL decides where it leads and what a log may name of it.
/// A URL that parses, with a host and a port, leads there; a log names the host
/// of every URL that parses, and nothing of one that does not.
pub proof fn law_what_a_url_decides(parts: Option<UrlPartsView>)
    ensures
        ({
            let target = crate::target::target_in(parts);
            let logged = crate::target::loggable_in(parts);
            match parts {
                None => target == Err::<TargetView, DropReason>(DropReason::UrlUnparseable)
                    && logged is None,
                Some(p) => {
                    &&& target is Ok <==> p.host is Some && p.port is Some
                    &&& target is Ok ==> target->Ok_0.host == p.host->0 && target->Ok_0.port
                        == p.port->0
                    &&& p.host is None ==> target->Err_0 == DropReason::NoHost
                    &&& p.host is Some && p.port is None ==> target->Err_0 == DropReason::NoPort
                    &&& logged is Some
                    &&& p.host is Some ==> logged->0 == p.host->0
                    &&& p.host is None ==> logged->0 == ""@
                },
            }
        }),
{
}

/// The brackets around the host of a URL, and they alone, are left out of what
/// is looked up.
pub proof fn law_what_is_looked_up(target: TargetView)
    ensures
        ({
            let host = target.host;
            let lookup = target.lookup_host();
            if host.len() >= 2 && host[0] == '[' && host[host.len() - 1] == ']' {
                seq!['['] + lookup + seq![']'] == host
            } else {
                lookup == host
            }
        }),
{
    assert(target.host.len() >= 2 ==> (seq![target.host[0]] + target.host.subrange(
        1,
        target.host.len() - 1,
    ) + seq![target.host[target.host.len() - 1]]) =~= target.host);
}

} // verus!
