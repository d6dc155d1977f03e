//! The background sender: it takes notifications off the queue, and decides
//! the course of each delivery.

use crate::backoff::backoff_ms;
use crate::circuit::CircuitState;
use crate::config::{ConfigView, EndpointConfig, EndpointView, WebhookPluginConfig};
use crate::delivery::{
    request_for, AttemptReply, DeliveryAction, DeliveryOutcome, DeliveryPhase, DeliverySignal,
    DeliveryStep, Job, JobView, StepView,
};
use crate::queue::{EventQueue, Notification, NotificationView, QueueView, Received};
use crate::target::{
    endpoint_target, pin_address, DropReason, EndpointTarget, PinnedClient, ResolvedAddress,
};
use std::collections::VecDeque;
use vstd::hash_map::StringHashMap;
use vstd::prelude::*;

verus! {

pub open spec fn job_views(s: Seq<Job>) -> Seq<JobView> {
    s.map_values(|j: Job| j@)
}

/// The jobs that a notification stands for: its event's payload, to each of its
/// endpoints in order.
pub open spec fn jobs_of(n: NotificationView) -> Seq<JobView> {
    n.endpoints.map_values(|e: EndpointView| JobView { endpoint: e, payload: n.event.payload() })
}

/// The jobs that several notifications stand for, one after the other.
pub open spec fn jobs_of_all(ns: Seq<NotificationView>) -> Seq<JobView>
    decreases ns.len(),
{
    if ns.len() == 0 {
        Seq::empty()
    } else {
        jobs_of(ns[0]) + jobs_of_all(ns.drop_first())
    }
}

/// What is left of the queue once the first notification with any job in it has
/// been taken, and the jobs of that notification.
pub open spec fn refill(ns: Seq<NotificationView>) -> (Seq<JobView>, Seq<NotificationView>)
    decreases ns.len(),
{
    if ns.len() == 0 {
        (Seq::empty(), Seq::empty())
    } else if jobs_of(ns[0]).len() > 0 {
        (jobs_of(ns[0]), ns.drop_first())
    } else {
        refill(ns.drop_first())
    }
}

/// The jobs at hand, and what is queued behind them: the backlog, or where that
/// is empty the first jobs in the queue.
pub open spec fn upcoming(backlog: Seq<JobView>, ns: Seq<NotificationView>) -> (
    Seq<JobView>,
    Seq<NotificationView>,
) {
    if backlog.len() > 0 {
        (backlog, ns)
    } else {
        refill(ns)
    }
}

/// What the sender does next.
#[derive(Debug)]
pub enum RunStep {
    /// Make this delivery.
    Deliver(Job),
    /// Wait for the queue.
    Wait,
    /// Shut down: nothing is queued, and nothing more will come.
    Finished,
}

/// Delivers queued notifications, one job at a time. Each endpoint URL has its
/// own circuit breaker, so that one broken receiver cannot throttle the others.
pub struct BackgroundSender {
    config: WebhookPluginConfig,
    breakers: StringHashMap<CircuitState>,
    backlog: VecDeque<Job>,
}

impl BackgroundSender {
    /// The configuration that the sender applies.
    pub closed spec fn applied(&self) -> ConfigView {
        self.config@
    }

    /// The breakers, by endpoint URL.
    pub closed spec fn circuits(&self) -> Map<Seq<char>, CircuitState> {
        self.breakers@
    }

    /// The jobs of the notification at hand that are still to be done.
    pub closed spec fn backlog(&self) -> Seq<JobView> {
        job_views(self.backlog@)
    }

    /// Every breaker is in a state that it can reach.
    pub open spec fn wf(&self) -> bool {
        circuits_wf(self.applied(), self.circuits())
    }

    /// A sender with nothing to do and every breaker closed.
    pub fn new(config: WebhookPluginConfig) -> (r: BackgroundSender)
        ensures
            r.applied() == config@,
            r.circuits() == Map::<Seq<char>, CircuitState>::empty(),
            r.backlog() == Seq::<JobView>::empty(),
            r.wf(),
    {
        let r = BackgroundSender {
            config,
            breakers: StringHashMap::new(),
            backlog: VecDeque::new(),
        };
        assert(r.backlog() =~= Seq::<JobView>::empty());
        r
    }

    /// The state of an endpoint's breaker.
    pub fn circuit(&self, url: &str) -> (r: CircuitState)
        ensures
            r == crate::delivery::circuit_of(self.circuits(), url@),
            self.wf() ==> r.wf(self.applied().circuit_breaker),
    {
        match self.breakers.get(url) {
            Some(state) => *state,
            None => CircuitState::Closed { consecutive_failures: 0 },
        }
    }

    /// Whether the breaker of this endpoint lets a delivery through at `now`.
    /// An open breaker whose period is over turns half-open.
    pub fn breaker_allow(&mut self, url: &str, now: u64) -> (r: bool)
        requires
            old(self).wf(),
        ensures
            r == crate::delivery::circuit_of(old(self).circuits(), url@).admits(now),
            final(self).circuits() == old(self).circuits().insert(
                url@,
                crate::delivery::circuit_of(old(self).circuits(), url@).after_request(
                    old(self).applied().circuit_breaker,
                    now,
                ),
            ),
            final(self).applied() == old(self).applied(),
            final(self).backlog() == old(self).backlog(),
            final(self).wf(),
    {
        let (next, admitted) = self.circuit(url).request(&self.config.circuit_breaker, now);
        self.breakers.insert(url.to_owned(), next);
        admitted
    }

    /// Closes the breaker of an endpoint that a delivery reached.
    pub fn record_success(&mut self, url: &str)
        requires
            old(self).wf(),
        ensures
            final(self).circuits() == old(self).circuits().insert(url@, CircuitState::fresh()),
            final(self).applied() == old(self).applied(),
            final(self).backlog() == old(self).backlog(),
            final(self).wf(),
    {
        self.breakers.insert(url.to_owned(), CircuitState::Closed { consecutive_failures: 0 });
    }

    /// Counts a failure at `now` against the breaker of an endpoint. A closed
    /// breaker opens at the threshold, any other opens again at once.
    pub fn record_failure(&mut self, url: &str, now: u64)
        requires
            old(self).wf(),
        ensures
            final(self).circuits() == old(self).circuits().insert(
                url@,
                crate::delivery::circuit_of(old(self).circuits(), url@).after_failure(
                    old(self).applied().circuit_breaker,
                    now,
                ),
            ),
            final(self).applied() == old(self).applied(),
            final(self).backlog() == old(self).backlog(),
            final(self).wf(),
    {
        let next = self.circuit(url).fail(&self.config.circuit_breaker, now);
        self.breakers.insert(url.to_owned(), next);
    }

    /// How to build the client of a delivery to the given target, which was
    /// resolved to the given addresses: pinned to the first address that is
    /// not private, or to the first of all where private ones are allowed.
    pub fn build_pinned_client(
        &self,
        target: EndpointTarget,
        resolved: Option<Vec<ResolvedAddress>>,
        allow_private_backends: bool,
    ) -> (r: Result<PinnedClient, DropReason>)
        ensures
            crate::target::pin_result(r) == crate::target::pin(
                self.applied().timeout_ms,
                target@.host,
                crate::target::resolution(resolved),
                allow_private_backends,
            ),
    {
        pin_address(self.config.timeout_ms, target, resolved, allow_private_backends)
    }

    /// One step of a delivery: asks the breaker, guards the address, sends the
    /// payload, judges each reply, and retries with growing pauses.
    pub fn deliver_with_retry(
        &mut self,
        job: &Job,
        phase: DeliveryPhase,
        signal: DeliverySignal,
    ) -> (r: DeliveryStep)
        requires
            old(self).wf(),
        ensures
            step_view(r, final(self).circuits()) == crate::delivery::delivery_step(
                old(self).applied(),
                old(self).circuits(),
                job@,
                phase@,
                signal@,
            ),
            final(self).applied() == old(self).applied(),
            final(self).backlog() == old(self).backlog(),
            final(self).wf(),
    {
        match (phase, signal) {
            (DeliveryPhase::Start, DeliverySignal::Begin { now }) => self.begin(&job.endpoint, now),
            (DeliveryPhase::Resolving { target }, DeliverySignal::Resolved { addresses }) => {
                match self.build_pinned_client(target, addresses, job.endpoint.allow_private_backends) {
                    Err(reason) => stopped(DeliveryOutcome::Dropped { reason }, None),
                    Ok(client) => DeliveryStep {
                        phase: DeliveryPhase::Building { client },
                        action: DeliveryAction::BuildClient,
                        request: None,
                        published: None,
                    },
                }
            },
            (DeliveryPhase::Building { client }, DeliverySignal::ClientBuilt { built }) => {
                if built {
                    DeliveryStep {
                        phase: DeliveryPhase::Sending { client, attempt: 0 },
                        action: DeliveryAction::Send,
                        request: Some(request_for(job)),
                        published: None,
                    }
                } else {
                    stopped(
                        DeliveryOutcome::Dropped { reason: DropReason::ClientBuildFailed },
                        None,
                    )
                }
            },
            (
                DeliveryPhase::Sending { client, attempt },
                DeliverySignal::Replied { reply, now, subsec_nanos },
            ) => self.judge(&job.endpoint, client, attempt, reply, now, subsec_nanos),
            (DeliveryPhase::Pausing { client, attempt }, DeliverySignal::Rested) => DeliveryStep {
                phase: DeliveryPhase::Sending { client, attempt },
                action: DeliveryAction::Send,
                request: Some(request_for(job)),
                published: None,
            },
            (phase, _) => DeliveryStep {
                phase,
                action: DeliveryAction::Wait,
                request: None,
                published: None,
            },
        }
    }

    /// The first step of a delivery.
    fn begin(&mut self, endpoint: &EndpointConfig, now: u64) -> (r: DeliveryStep)
        requires
            old(self).wf(),
        ensures
            step_view(r, final(self).circuits()) == crate::delivery::on_begin(
                old(self).applied(),
                old(self).circuits(),
                endpoint@,
                crate::target::target_in(crate::target::url_parts(endpoint@.url)),
                now,
            ),
            final(self).applied() == old(self).applied(),
            final(self).backlog() == old(self).backlog(),
            final(self).wf(),
    {
        let url = endpoint.url.as_str();
        let before = self.circuit(url);
        let admitted: bool = self.breaker_allow(url, now);
        let after = self.circuit(url);
        let published = match (before, after) {
            (CircuitState::Open { .. }, CircuitState::HalfOpen { .. }) => Some(after),
            _ => None,
        };
        if !admitted {
            return stopped(DeliveryOutcome::ShortCircuited, published);
        }
        match endpoint_target(url) {
            Err(reason) => stopped(DeliveryOutcome::Dropped { reason }, published),
            Ok(target) => DeliveryStep {
                phase: DeliveryPhase::Resolving { target },
                action: DeliveryAction::Resolve,
                request: None,
                published,
            },
        }
    }

    /// The step that follows a reply.
    fn judge(
        &mut self,
        endpoint: &EndpointConfig,
        client: PinnedClient,
        attempt: u32,
        reply: AttemptReply,
        now: u64,
        subsec_nanos: u32,
    ) -> (r: DeliveryStep)
        requires
            old(self).wf(),
        ensures
            step_view(r, final(self).circuits()) == crate::delivery::on_reply(
                old(self).applied(),
                old(self).circuits(),
                endpoint@,
                client@,
                attempt,
                reply,
                now,
                subsec_nanos,
            ),
            final(self).applied() == old(self).applied(),
            final(self).backlog() == old(self).backlog(),
            final(self).wf(),
    {
        let url = endpoint.url.as_str();
        let server_side: bool = match reply {
            AttemptReply::Response { status, remote_blocked } => {
                if remote_blocked {
                    return stopped(DeliveryOutcome::RebindingBlocked, None);
                }
                if 200 <= status && status < 300 {
                    self.record_success(url);
                    let closed = self.circuit(url);
                    return stopped(DeliveryOutcome::Delivered, Some(closed));
                }
                500 <= status && status < 600
            },
            AttemptReply::Failed => true,
        };
        let published = if server_side {
            self.record_failure(url, now);
            Some(self.circuit(url))
        } else {
            None
        };
        if attempt >= self.config.max_retries {
            return stopped(DeliveryOutcome::Exhausted, published);
        }
        let retry: u32 = attempt + 1;
        let ms: u64 = backoff_ms(self.config.retry_backoff_ms, retry, subsec_nanos);
        DeliveryStep {
            phase: DeliveryPhase::Pausing { client, attempt: retry },
            action: DeliveryAction::Sleep { ms },
            request: None,
            published,
        }
    }

    /// Puts the jobs of a notification at the end of the backlog.
    fn take_on(&mut self, n: Notification)
        ensures
            final(self).backlog() == old(self).backlog() + jobs_of(n@),
            final(self).applied() == old(self).applied(),
            final(self).circuits() == old(self).circuits(),
    {
        let payload: String = n.event.payload();
        let ghost jobs = jobs_of(n@);
        assert(old(self).backlog() + jobs.take(0) =~= old(self).backlog());
        for i in 0..n.endpoints.len()
            invariant
                payload@ == n@.event.payload(),
                jobs == jobs_of(n@),
                self.backlog() == old(self).backlog() + jobs.take(i as int),
                self.applied() == old(self).applied(),
                self.circuits() == old(self).circuits(),
        {
            let ghost before = self.backlog@;
            let job = Job { endpoint: n.endpoints[i].clone(), payload: payload.clone() };
            self.backlog.push_back(job);
            assert(job@ == jobs[i as int]);
            assert(job_views(self.backlog@) =~= job_views(before).push(job@));
            assert(jobs.take(i + 1) =~= jobs.take(i as int).push(jobs[i as int]));
            assert(self.backlog() =~= old(self).backlog() + jobs.take(i + 1));
        }
        assert(jobs.take(jobs.len() as int) =~= jobs);
    }

    /// One step of the sender's work: the next delivery to make, if there is
    /// one. Notifications leave the queue in order, and each becomes a delivery
    /// to each of its endpoints, in order.
    pub fn run(&mut self, queue: &mut EventQueue) -> (r: RunStep)
        requires
            old(self).wf(),
        ensures
            ({
                let (todo, rest) = upcoming(old(self).backlog(), old(queue)@.items);
                &&& final(queue)@ == (QueueView { items: rest, ..old(queue)@ })
                &&& match r {
                    RunStep::Deliver(job) => {
                        &&& todo.len() > 0
                        &&& job@ == todo[0]
                        &&& final(self).backlog() == todo.drop_first()
                    },
                    RunStep::Wait => {
                        &&& todo.len() == 0
                        &&& !old(queue)@.closed
                        &&& final(self).backlog() == todo
                    },
                    RunStep::Finished => {
                        &&& todo.len() == 0
                        &&& old(queue)@.closed
                        &&& final(self).backlog() == todo
                    },
                }
            }),
            final(self).applied() == old(self).applied(),
            final(self).circuits() == old(self).circuits(),
            final(self).wf(),
            old(queue)@.wf() ==> final(queue)@.wf(),
    {
        assert(old(queue)@ =~= (QueueView { items: old(queue)@.items, ..old(queue)@ }));
        while self.backlog.len() == 0
            invariant
                self.applied() == old(self).applied(),
                self.circuits() == old(self).circuits(),
                old(self).wf(),
                old(queue)@.wf() ==> queue@.wf(),
                queue@ == (QueueView { items: queue@.items, ..old(queue)@ }),
                old(self).backlog().len() > 0 ==> self.backlog() == old(self).backlog()
                    && queue@.items == old(queue)@.items,
                old(self).backlog().len() == 0 && self.backlog().len() == 0 ==> refill(
                    queue@.items,
                ) == refill(old(queue)@.items),
                old(self).backlog().len() == 0 && self.backlog().len() > 0 ==> (
                self.backlog(),
                queue@.items,
                ) == refill(old(queue)@.items),
            decreases queue@.items.len(),
        {
            match queue.try_recv() {
                Received::Item(n) => {
                    self.take_on(n);
                },
                Received::Empty => {
                    return RunStep::Wait;
                },
                Received::Disconnected => {
                    return RunStep::Finished;
                },
            }
        }
        let ghost todo = self.backlog();
        match self.backlog.pop_front() {
            Some(job) => {
                assert(self.backlog() =~= todo.drop_first());
                RunStep::Deliver(job)
            },
            None => RunStep::Wait,
        }
    }
}

/// Every breaker is in a state that it can reach.
pub open spec fn circuits_wf(config: ConfigView, circuits: Map<Seq<char>, CircuitState>) -> bool {
    forall|url: Seq<char>| #[trigger]
        circuits.dom().contains(url) ==> circuits[url].wf(config.circuit_breaker)
}

/// A step, with the breakers that it leaves behind.
pub open spec fn step_view(step: DeliveryStep, circuits: Map<Seq<char>, CircuitState>) -> StepView {
    StepView {
        circuits,
        phase: step.phase@,
        action: step.action,
        request: crate::delivery::optional_request(step.request),
        published: step.published,
    }
}

fn stopped(outcome: DeliveryOutcome, published: Option<CircuitState>) -> (r: DeliveryStep)
    ensures
        r == (DeliveryStep {
            phase: DeliveryPhase::Finished,
            action: DeliveryAction::Stop { outcome },
            request: None,
            published,
        }),
{
    DeliveryStep {
        phase: DeliveryPhase::Finished,
        action: DeliveryAction::Stop { outcome },
        request: None,
        published,
    }
}

proof fn lemma_refill(ns: Seq<NotificationView>)
    ensures
        refill(ns).0 + jobs_of_all(refill(ns).1) == jobs_of_all(ns),
        refill(ns).0.len() == 0 ==> jobs_of_all(ns).len() == 0,
    decreases ns.len(),
{
    if ns.len() == 0 {
        assert(refill(ns).0 + jobs_of_all(refill(ns).1) =~= jobs_of_all(ns));
    } else if jobs_of(ns[0]).len() == 0 {
        lemma_refill(ns.drop_first());
        assert(jobs_of(ns[0]) + jobs_of_all(ns.drop_first()) =~= jobs_of_all(ns.drop_first()));
    }
}

/// Each step of the sender takes the first of all the jobs that are waiting,
/// and leaves the others, in order: every endpoint of every notification gets
/// exactly one delivery, first in, first out. The sender rests only when no job
/// is waiting.
pub proof fn law_first_in_first_out(backlog: Seq<JobView>, ns: Seq<NotificationView>)
    ensures
        ({
            let waiting = backlog + jobs_of_all(ns);
            let (todo, rest) = upcoming(backlog, ns);
            &&& todo.len() == 0 <==> waiting.len() == 0
            &&& todo.len() > 0 ==> waiting == seq![todo[0]] + (todo.drop_first() + jobs_of_all(rest))
        }),
{
    let waiting = backlog + jobs_of_all(ns);
    let (todo, rest) = upcoming(backlog, ns);
    lemma_refill(ns);
    assert(waiting =~= todo + jobs_of_all(rest));
    if todo.len() > 0 {
        assert(waiting =~= seq![todo[0]] + (todo.drop_first() + jobs_of_all(rest)));
    }
}

} // verus!
