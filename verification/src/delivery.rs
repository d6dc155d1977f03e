//! One delivery, as a state machine: what is to be done next, given where the
//! delivery stands and what has just come of the last thing done.
//!
//! The machine decides; resolving, building a client, sending and sleeping are
//! done by whoever drives it.

use crate::circuit::CircuitState;
use crate::config::{ConfigView, EndpointConfig, EndpointView};
use crate::target::{
    AddressView, DropReason, EndpointTarget, PinView, PinnedClient, ResolvedAddress, TargetView,
};
use vstd::prelude::*;

verus! {

/// One delivery to be made: a payload and the endpoint it goes to.
#[derive(Debug)]
pub struct Job {
    pub endpoint: EndpointConfig,
    pub payload: String,
}

/// What a [`Job`] holds, as mathematical values.
pub struct JobView {
    pub endpoint: EndpointView,
    pub payload: Seq<char>,
}

impl View for Job {
    type V = JobView;

    open spec fn view(&self) -> JobView {
        JobView { endpoint: self.endpoint@, payload: self.payload@ }
    }
}

/// The methods by which a request is made.
#[derive(Debug, Clone, Copy, PartialEq, Eq, Structural)]
pub enum Method {
    Post,
}

/// A request to be sent.
#[derive(Debug)]
pub struct Request {
    pub method: Method,
    pub url: String,
    /// Added one after the other, by name and value.
    pub headers: Vec<(String, String)>,
    pub body: String,
}

/// What a [`Request`] holds, as mathematical values.
pub struct RequestView {
    pub method: Method,
    pub url: Seq<char>,
    pub headers: Seq<(Seq<char>, Seq<char>)>,
    pub body: Seq<char>,
}

impl View for Request {
    type V = RequestView;

    open spec fn view(&self) -> RequestView {
        RequestView {
            method: self.method,
            url: self.url@,
            headers: crate::config::text_pairs(self.headers@),
            body: self.body@,
        }
    }
}

pub open spec fn optional_request(request: Option<Request>) -> Option<RequestView> {
    match request {
        Some(r) => Some(r@),
        None => None,
    }
}

/// The headers of every request to an endpoint: the content type, then the
/// endpoint's own.
pub open spec fn request_header_views(endpoint: EndpointView) -> Seq<(Seq<char>, Seq<char>)> {
    seq![("content-type"@, "application/json"@)] + endpoint.headers
}

/// The headers of every request to an endpoint.
pub fn request_headers(endpoint: &EndpointConfig) -> (r: Vec<(String, String)>)
    ensures
        crate::config::text_pairs(r@) == request_header_views(endpoint@),
{
    let mut r: Vec<(String, String)> = Vec::new();
    r.push(("content-type".to_owned(), "application/json".to_owned()));
    let mut own: Vec<(String, String)> = crate::config::clone_text_pairs(&endpoint.headers);
    let ghost copied = own@;
    r.append(&mut own);
    assert(crate::config::text_pairs(copied) == endpoint@.headers);
    assert(crate::config::text_pairs(r@) =~= request_header_views(endpoint@)) by {
        assert forall|i: int| 0 <= i < copied.len() implies #[trigger] crate::config::text_pairs(
            copied,
        )[i] == endpoint@.headers[i] by {}
        assert forall|i: int| 1 <= i < r@.len() implies #[trigger] r@[i] == copied[i - 1] by {}
    }
    r
}

impl JobView {
    /// The request of every attempt at this delivery: a POST of the payload to
    /// the endpoint's URL, with the content type and the endpoint's headers.
    pub open spec fn request(self) -> RequestView {
        RequestView {
            method: Method::Post,
            url: self.endpoint.url,
            headers: request_header_views(self.endpoint),
            body: self.payload,
        }
    }
}

/// The request of every attempt at a delivery.
pub fn request_for(job: &Job) -> (r: Request)
    ensures
        r@ == job@.request(),
{
    Request {
        method: Method::Post,
        url: job.endpoint.url.clone(),
        headers: request_headers(&job.endpoint),
        body: job.payload.clone(),
    }
}

/// After the content type a request holds the endpoint's own headers, in
/// ascending order of their names, and each configured name once.
pub proof fn law_each_header_once(endpoint: EndpointView)
    requires
        endpoint.wf(),
    ensures
        ({
            let headers = request_header_views(endpoint);
            &&& headers.len() == endpoint.headers.len() + 1
            &&& headers[0] == ("content-type"@, "application/json"@)
            &&& forall|i: int|
                0 <= i < endpoint.headers.len() ==> headers[i + 1] == #[trigger] endpoint.headers[i]
            &&& forall|i: int, j: int|
                1 <= i < j < headers.len() ==> {
                    &&& (#[trigger] headers[i]).0 != (#[trigger] headers[j]).0
                    &&& crate::config::precedes(headers[i].0, headers[j].0)
                }
        }),
{
    let headers = request_header_views(endpoint);
    assert forall|i: int, j: int| 1 <= i < j < headers.len() implies {
        &&& (#[trigger] headers[i]).0 != (#[trigger] headers[j]).0
        &&& crate::config::precedes(headers[i].0, headers[j].0)
    } by {
        assert(headers[i] == endpoint.headers[i - 1]);
        assert(headers[j] == endpoint.headers[j - 1]);
        crate::config::lemma_precedes_is_strict(headers[i].0, headers[j].0);
    }
}

/// What came of one request.
#[derive(Debug, Clone, Copy, PartialEq, Eq, Structural)]
pub enum AttemptReply {
    /// The receiver answered with this status; `remote_blocked` says that the
    /// answer came from an address that the endpoint must not be delivered to.
    Response { status: u16, remote_blocked: bool },
    /// No answer: the connection failed, or the request timed out.
    Failed,
}

/// Whether a status reports success.
pub open spec fn is_success(status: u16) -> bool {
    200 <= status < 300
}

/// Whether a status reports a failure on the server's side.
pub open spec fn is_server_error(status: u16) -> bool {
    500 <= status < 600
}

impl AttemptReply {
    /// The answer came from where it must not.
    pub open spec fn blocked(self) -> bool {
        self matches AttemptReply::Response { remote_blocked, .. } && remote_blocked
    }

    /// The receiver took the event.
    pub open spec fn accepted(self) -> bool {
        self matches AttemptReply::Response { status, .. } && is_success(status)
    }

    /// The failure counts against the endpoint's breaker: a server error, or
    /// no answer at all.
    pub open spec fn trips_breaker(self) -> bool {
        match self {
            AttemptReply::Response { status, .. } => is_server_error(status),
            AttemptReply::Failed => true,
        }
    }
}

/// How a delivery ended.
#[derive(Debug, Clone, Copy, PartialEq, Eq, Structural)]
pub enum DeliveryOutcome {
    /// The endpoint's breaker let nothing through.
    ShortCircuited,
    /// Nothing was sent, for the given reason.
    Dropped { reason: DropReason },
    /// An answer came from an address that must not be delivered to.
    RebindingBlocked,
    /// The receiver took the event.
    Delivered,
    /// Every attempt failed.
    Exhausted,
}

impl DeliveryOutcome {
    /// Whether the address guard ended the delivery: nothing could be resolved,
    /// nothing but private addresses was found, or a blocked one answered.
    pub fn counts_as_blocked(self) -> (r: bool)
        ensures
            r <==> {
                ||| self == DeliveryOutcome::RebindingBlocked
                ||| self == (DeliveryOutcome::Dropped { reason: DropReason::ResolutionFailed })
                ||| self == (DeliveryOutcome::Dropped { reason: DropReason::PrivateOnly })
            },
    {
        match self {
            DeliveryOutcome::RebindingBlocked => true,
            DeliveryOutcome::Dropped { reason } => match reason {
                DropReason::ResolutionFailed | DropReason::PrivateOnly => true,
                _ => false,
            },
            _ => false,
        }
    }
}

/// Where a delivery stands. An attempt is numbered by the retries before it.
#[derive(Debug)]
pub enum DeliveryPhase {
    Start,
    /// The target is being resolved.
    Resolving { target: EndpointTarget },
    /// The client is being built.
    Building { client: PinnedClient },
    /// A request is under way.
    Sending { client: PinnedClient, attempt: u32 },
    /// The pause before the given attempt.
    Pausing { client: PinnedClient, attempt: u32 },
    Finished,
}

/// What a [`DeliveryPhase`] holds, as mathematical values.
pub enum PhaseView {
    Start,
    Resolving { target: TargetView },
    Building { client: PinView },
    Sending { client: PinView, attempt: u32 },
    Pausing { client: PinView, attempt: u32 },
    Finished,
}

impl View for DeliveryPhase {
    type V = PhaseView;

    open spec fn view(&self) -> PhaseView {
        match self {
            DeliveryPhase::Start => PhaseView::Start,
            DeliveryPhase::Resolving { target } => PhaseView::Resolving { target: target@ },
            DeliveryPhase::Building { client } => PhaseView::Building { client: client@ },
            DeliveryPhase::Sending { client, attempt } => PhaseView::Sending {
                client: client@,
                attempt: *attempt,
            },
            DeliveryPhase::Pausing { client, attempt } => PhaseView::Pausing {
                client: client@,
                attempt: *attempt,
            },
            DeliveryPhase::Finished => PhaseView::Finished,
        }
    }
}

/// What has just happened. Instants are nanoseconds of a monotonic clock.
#[derive(Debug)]
pub enum DeliverySignal {
    /// The delivery is asked for.
    Begin { now: u64 },
    /// The target was resolved, or could not be.
    Resolved { addresses: Option<Vec<ResolvedAddress>> },
    /// The client was built, or could not be.
    ClientBuilt { built: bool },
    /// A request came to an end; `subsec_nanos` is the wall clock's.
    Replied { reply: AttemptReply, now: u64, subsec_nanos: u32 },
    /// The pause is over.
    Rested,
}

/// What a [`DeliverySignal`] holds, as mathematical values.
pub enum SignalView {
    Begin { now: u64 },
    Resolved { addresses: Option<Seq<AddressView>> },
    ClientBuilt { built: bool },
    Replied { reply: AttemptReply, now: u64, subsec_nanos: u32 },
    Rested,
}

impl View for DeliverySignal {
    type V = SignalView;

    open spec fn view(&self) -> SignalView {
        match self {
            DeliverySignal::Begin { now } => SignalView::Begin { now: *now },
            DeliverySignal::Resolved { addresses } => SignalView::Resolved {
                addresses: crate::target::resolution(*addresses),
            },
            DeliverySignal::ClientBuilt { built } => SignalView::ClientBuilt { built: *built },
            DeliverySignal::Replied { reply, now, subsec_nanos } => SignalView::Replied {
                reply: *reply,
                now: *now,
                subsec_nanos: *subsec_nanos,
            },
            DeliverySignal::Rested => SignalView::Rested,
        }
    }
}

/// What to do next. The particulars stand in the phase.
#[derive(Debug, Clone, Copy, PartialEq, Eq, Structural)]
pub enum DeliveryAction {
    /// Resolve the lookup host and the port of the phase's target.
    Resolve,
    /// Build the client of the phase.
    BuildClient,
    /// Send the request of the step with the client of the phase.
    Send,
    /// Sleep for so many milliseconds.
    Sleep { ms: u64 },
    /// The delivery is over.
    Stop { outcome: DeliveryOutcome },
    /// Nothing: what happened is none of this phase's business.
    Wait,
}

/// A step of the machine.
#[derive(Debug)]
pub struct DeliveryStep {
    pub phase: DeliveryPhase,
    pub action: DeliveryAction,
    /// The request to send, where the action is to send one.
    pub request: Option<Request>,
    /// The state of the endpoint's breaker, where the step calls for it to be
    /// published.
    pub published: Option<CircuitState>,
}

/// A step of the machine, with the breakers that it leaves behind.
pub struct StepView {
    pub circuits: Map<Seq<char>, CircuitState>,
    pub phase: PhaseView,
    pub action: DeliveryAction,
    pub request: Option<RequestView>,
    pub published: Option<CircuitState>,
}

/// The breaker of an endpoint: a fresh one, where it has none yet.
pub open spec fn circuit_of(circuits: Map<Seq<char>, CircuitState>, url: Seq<char>) -> CircuitState {
    if circuits.dom().contains(url) {
        circuits[url]
    } else {
        CircuitState::fresh()
    }
}

/// The end of a delivery.
pub open spec fn stop(
    circuits: Map<Seq<char>, CircuitState>,
    outcome: DeliveryOutcome,
    published: Option<CircuitState>,
) -> StepView {
    StepView {
        circuits,
        phase: PhaseView::Finished,
        action: DeliveryAction::Stop { outcome },
        request: None,
        published,
    }
}

/// The delivery asks the endpoint's breaker, then looks for a target in the
/// endpoint's URL.
pub open spec fn on_begin(
    config: ConfigView,
    circuits: Map<Seq<char>, CircuitState>,
    endpoint: EndpointView,
    target: Result<TargetView, DropReason>,
    now: u64,
) -> StepView {
    let before = circuit_of(circuits, endpoint.url);
    let after = before.after_request(config.circuit_breaker, now);
    let circuits = circuits.insert(endpoint.url, after);
    let published = if before is Open && after is HalfOpen {
        Some(after)
    } else {
        None
    };
    if !before.admits(now) {
        stop(circuits, DeliveryOutcome::ShortCircuited, published)
    } else {
        match target {
            Err(reason) => stop(circuits, DeliveryOutcome::Dropped { reason }, published),
            Ok(target) => StepView {
                circuits,
                phase: PhaseView::Resolving { target },
                action: DeliveryAction::Resolve,
                request: None,
                published,
            },
        }
    }
}

/// The delivery picks the address that it is pinned to.
pub open spec fn on_resolved(
    config: ConfigView,
    circuits: Map<Seq<char>, CircuitState>,
    endpoint: EndpointView,
    target: TargetView,
    addresses: Option<Seq<AddressView>>,
) -> StepView {
    match crate::target::pin(
        config.timeout_ms,
        target.host,
        addresses,
        endpoint.allow_private_backends,
    ) {
        Err(reason) => stop(circuits, DeliveryOutcome::Dropped { reason }, None),
        Ok(client) => StepView {
            circuits,
            phase: PhaseView::Building { client },
            action: DeliveryAction::BuildClient,
            request: None,
            published: None,
        },
    }
}

/// An attempt is over: the delivery has succeeded, is blocked, is to be tried
/// again after a pause, or has used up its retries.
pub open spec fn on_reply(
    config: ConfigView,
    circuits: Map<Seq<char>, CircuitState>,
    endpoint: EndpointView,
    client: PinView,
    attempt: u32,
    reply: AttemptReply,
    now: u64,
    subsec_nanos: u32,
) -> StepView {
    if reply.blocked() {
        stop(circuits, DeliveryOutcome::RebindingBlocked, None)
    } else if reply.accepted() {
        stop(
            circuits.insert(endpoint.url, CircuitState::fresh()),
            DeliveryOutcome::Delivered,
            Some(CircuitState::fresh()),
        )
    } else {
        let failed = circuit_of(circuits, endpoint.url).after_failure(config.circuit_breaker, now);
        let (circuits, published) = if reply.trips_breaker() {
            (circuits.insert(endpoint.url, failed), Some(failed))
        } else {
            (circuits, None)
        };
        if attempt >= config.max_retries {
            stop(circuits, DeliveryOutcome::Exhausted, published)
        } else {
            let retry = (attempt + 1) as u32;
            StepView {
                circuits,
                phase: PhaseView::Pausing { client, attempt: retry },
                action: DeliveryAction::Sleep {
                    ms: crate::backoff::pause_ms(
                        config.retry_backoff_ms,
                        retry,
                        subsec_nanos,
                    ) as u64,
                },
                request: None,
                published,
            }
        }
    }
}

/// The step that a signal leads to. A signal that the phase does not wait for
/// changes nothing.
pub open spec fn delivery_step(
    config: ConfigView,
    circuits: Map<Seq<char>, CircuitState>,
    job: JobView,
    phase: PhaseView,
    signal: SignalView,
) -> StepView {
    match (phase, signal) {
        (PhaseView::Start, SignalView::Begin { now }) => on_begin(
            config,
            circuits,
            job.endpoint,
            crate::target::target_in(crate::target::url_parts(job.endpoint.url)),
            now,
        ),
        (PhaseView::Resolving { target }, SignalView::Resolved { addresses }) => on_resolved(
            config,
            circuits,
            job.endpoint,
            target,
            addresses,
        ),
        (PhaseView::Building { client }, SignalView::ClientBuilt { built }) => if built {
            StepView {
                circuits,
                phase: PhaseView::Sending { client, attempt: 0 },
                action: DeliveryAction::Send,
                request: Some(job.request()),
                published: None,
            }
        } else {
            stop(
                circuits,
                DeliveryOutcome::Dropped { reason: DropReason::ClientBuildFailed },
                None,
            )
        },
        (
            PhaseView::Sending { client, attempt },
            SignalView::Replied { reply, now, subsec_nanos },
        ) => on_reply(config, circuits, job.endpoint, client, attempt, reply, now, subsec_nanos),
        (PhaseView::Pausing { client, attempt }, SignalView::Rested) => StepView {
            circuits,
            phase: PhaseView::Sending { client, attempt },
            action: DeliveryAction::Send,
            request: Some(job.request()),
            published: None,
        },
        _ => StepView { circuits, phase, action: DeliveryAction::Wait, request: None, published: None },
    }
}

/// Where a delivery stands after several signals, one after the other.
pub open spec fn after_signals(
    config: ConfigView,
    circuits: Map<Seq<char>, CircuitState>,
    job: JobView,
    phase: PhaseView,
    signals: Seq<SignalView>,
) -> StepView
    decreases signals.len(),
{
    if signals.len() == 0 {
        StepView { circuits, phase, action: DeliveryAction::Wait, request: None, published: None }
    } else {
        let before = after_signals(config, circuits, job, phase, signals.drop_last());
        delivery_step(config, before.circuits, job, before.phase, signals.last())
    }
}

/// How many requests a delivery sends on the way.
pub open spec fn sends(
    config: ConfigView,
    circuits: Map<Seq<char>, CircuitState>,
    job: JobView,
    phase: PhaseView,
    signals: Seq<SignalView>,
) -> nat
    decreases signals.len(),
{
    if signals.len() == 0 {
        0
    } else {
        sends(config, circuits, job, phase, signals.drop_last()) + if after_signals(
            config,
            circuits,
            job,
            phase,
            signals,
        ).action == DeliveryAction::Send {
            1nat
        } else {
            0nat
        }
    }
}

impl PhaseView {
    /// The client at hand, if there is one, is pinned to an address that the
    /// endpoint may be delivered to, and follows no redirects.
    pub open spec fn guarded(self, endpoint: EndpointView) -> bool {
        match self {
            PhaseView::Building { client } | PhaseView::Sending { client, .. }
            | PhaseView::Pausing { client, .. } => {
                &&& client.address.allowed(endpoint.allow_private_backends)
                &&& !client.follow_redirects
            },
            _ => true,
        }
    }
}

/// Whatever the network does, every client that a delivery builds, and every
/// request that it sends, is for a guarded address: a private one only where
/// the endpoint opts in, and never reached by a redirect.
pub proof fn law_every_request_is_guarded(
    config: ConfigView,
    circuits: Map<Seq<char>, CircuitState>,
    job: JobView,
    signals: Seq<SignalView>,
)
    ensures
        ({
            let s = after_signals(config, circuits, job, PhaseView::Start, signals);
            &&& s.phase.guarded(job.endpoint)
            &&& s.action == DeliveryAction::BuildClient ==> s.phase is Building
            &&& s.action == DeliveryAction::Send ==> s.phase is Sending
        }),
    decreases signals.len(),
{
    if signals.len() > 0 {
        law_every_request_is_guarded(config, circuits, job, signals.drop_last());
        let before = after_signals(
            config,
            circuits,
            job,
            PhaseView::Start,
            signals.drop_last(),
        );
        if let (PhaseView::Resolving { target }, SignalView::Resolved { addresses }) = (
            before.phase,
            signals.last(),
        ) {
            if let Some(addresses) = addresses {
                crate::target::law_no_private_delivery(
                    config.timeout_ms,
                    target.host,
                    addresses,
                    job.endpoint.allow_private_backends,
                );
            }
        }
    }
}

/// Every request that a delivery sends, at the first attempt and at each retry
/// alike, is the same: the payload, posted to the endpoint's URL with the
/// content type and the endpoint's headers. A step that does not send has none.
pub proof fn law_every_request_carries_the_payload(
    config: ConfigView,
    circuits: Map<Seq<char>, CircuitState>,
    job: JobView,
    phase: PhaseView,
    signals: Seq<SignalView>,
)
    ensures
        ({
            let s = after_signals(config, circuits, job, phase, signals);
            s.request == if s.action == DeliveryAction::Send {
                Some(
                    RequestView {
                        method: Method::Post,
                        url: job.endpoint.url,
                        headers: seq![("content-type"@, "application/json"@)]
                            + job.endpoint.headers,
                        body: job.payload,
                    },
                )
            } else {
                None
            }
        }),
{
}

/// The sends that a phase leaves behind it.
spec fn sends_so_far(config: ConfigView, phase: PhaseView, n: nat) -> bool {
    match phase {
        PhaseView::Sending { attempt, .. } => n == attempt + 1 && attempt <= config.max_retries,
        PhaseView::Pausing { attempt, .. } => n == attempt && attempt <= config.max_retries,
        PhaseView::Finished => n <= config.max_retries + 1,
        _ => n == 0,
    }
}

proof fn lemma_sends_so_far(
    config: ConfigView,
    circuits: Map<Seq<char>, CircuitState>,
    job: JobView,
    signals: Seq<SignalView>,
)
    ensures
        sends_so_far(
            config,
            after_signals(config, circuits, job, PhaseView::Start, signals).phase,
            sends(config, circuits, job, PhaseView::Start, signals),
        ),
    decreases signals.len(),
{
    if signals.len() > 0 {
        lemma_sends_so_far(config, circuits, job, signals.drop_last());
    }
}

/// A delivery is attempted at most once more than it may be retried.
pub proof fn law_attempts_are_bounded(
    config: ConfigView,
    circuits: Map<Seq<char>, CircuitState>,
    job: JobView,
    signals: Seq<SignalView>,
)
    ensures
        sends(config, circuits, job, PhaseView::Start, signals) <= config.max_retries + 1,
{
    lemma_sends_so_far(config, circuits, job, signals);
}

/// Whatever number of retries a configuration asks for, the one that is
/// applied makes at most ten retries.
pub proof fn law_retry_hard_cap(
    config: ConfigView,
    circuits: Map<Seq<char>, CircuitState>,
    job: JobView,
    signals: Seq<SignalView>,
)
    ensures
        sends(config.capped(), circuits, job, PhaseView::Start, signals) <= 1
            + crate::config::WEBHOOK_RETRY_HARD_CAP,
{
    law_attempts_are_bounded(config.capped(), circuits, job, signals);
}

/// A run of replies, each followed by the end of the pause after it.
pub open spec fn replies_and_rests(replies: Seq<(AttemptReply, u64, u32)>) -> Seq<SignalView>
    decreases replies.len(),
{
    if replies.len() == 0 {
        Seq::empty()
    } else {
        let (reply, now, subsec_nanos) = replies.last();
        replies_and_rests(replies.drop_last()).push(
            SignalView::Replied { reply, now, subsec_nanos },
        ).push(SignalView::Rested)
    }
}

/// As long as replies are failures and retries are left, each failure leads to
/// the next attempt with the same client; the failure that finds none left ends
/// the delivery. So a delivery that keeps failing is attempted exactly once
/// more than it may be retried.
pub proof fn law_failures_use_up_the_retries(
    config: ConfigView,
    circuits: Map<Seq<char>, CircuitState>,
    job: JobView,
    client: PinView,
    replies: Seq<(AttemptReply, u64, u32)>,
    last: (AttemptReply, u64, u32),
)
    requires
        replies.len() <= config.max_retries,
        forall|i: int|
            0 <= i < replies.len() ==> !(#[trigger] replies[i]).0.blocked()
                && !replies[i].0.accepted(),
        !last.0.blocked(),
        !last.0.accepted(),
    ensures
        ({
            let sending = PhaseView::Sending { client, attempt: 0 };
            let course = replies_and_rests(replies);
            let s = after_signals(config, circuits, job, sending, course);
            let end = after_signals(
                config,
                circuits,
                job,
                sending,
                course.push(
                    SignalView::Replied { reply: last.0, now: last.1, subsec_nanos: last.2 },
                ),
            );
            &&& s.phase == PhaseView::Sending { client, attempt: replies.len() as u32 }
            &&& sends(config, circuits, job, sending, course) == replies.len()
            &&& replies.len() == config.max_retries ==> end.action == (DeliveryAction::Stop {
                outcome: DeliveryOutcome::Exhausted,
            })
            &&& replies.len() < config.max_retries ==> end.action is Sleep
        }),
    decreases replies.len(),
{
    let sending = PhaseView::Sending { client, attempt: 0 };
    let course = replies_and_rests(replies);
    if replies.len() > 0 {
        let fewer = replies.drop_last();
        let (reply, now, subsec_nanos) = replies.last();
        assert(replies[replies.len() - 1].0 == reply);
        assert forall|i: int| 0 <= i < fewer.len() implies !(#[trigger] fewer[i]).0.blocked()
            && !fewer[i].0.accepted() by {
            assert(fewer[i] == replies[i]);
        }
        law_failures_use_up_the_retries(config, circuits, job, client, fewer, replies.last());
        let so_far = replies_and_rests(fewer);
        let replied = so_far.push(SignalView::Replied { reply, now, subsec_nanos });
        assert(course == replied.push(SignalView::Rested));
        assert(course.drop_last() =~= replied);
        assert(replied.drop_last() =~= so_far);
        assert(after_signals(config, circuits, job, sending, replied).phase == (
        PhaseView::Pausing { client, attempt: replies.len() as u32 }));
        assert(sends(config, circuits, job, sending, replied) == fewer.len());
    }
    let end = course.push(
        SignalView::Replied { reply: last.0, now: last.1, subsec_nanos: last.2 },
    );
    assert(end.drop_last() =~= course);
}

/// The address that a delivery is pinned to holds for all of it: whatever comes
/// after the choice, the delivery has that same client or is over.
pub proof fn law_pin_holds_for_the_delivery(
    config: ConfigView,
    circuits: Map<Seq<char>, CircuitState>,
    job: JobView,
    client: PinView,
    signals: Seq<SignalView>,
)
    ensures
        match after_signals(
            config,
            circuits,
            job,
            PhaseView::Building { client },
            signals,
        ).phase {
            PhaseView::Building { client: held } | PhaseView::Sending { client: held, .. }
            | PhaseView::Pausing { client: held, .. } => held == client,
            PhaseView::Finished => true,
            _ => false,
        },
    decreases signals.len(),
{
    if signals.len() > 0 {
        law_pin_holds_for_the_delivery(config, circuits, job, client, signals.drop_last());
    }
}

/// The instants at which the given replies came.
pub open spec fn reply_times(replies: Seq<(AttemptReply, u64, u32)>) -> Seq<u64> {
    replies.map_values(|r: (AttemptReply, u64, u32)| r.1)
}

/// A delivery whose attempts all fail on the server's side counts each of them
/// against the endpoint's breaker, as a run of failures without a success.
pub proof fn law_failed_attempts_reach_the_breaker(
    config: ConfigView,
    circuits: Map<Seq<char>, CircuitState>,
    job: JobView,
    client: PinView,
    replies: Seq<(AttemptReply, u64, u32)>,
)
    requires
        replies.len() <= config.max_retries,
        forall|i: int|
            0 <= i < replies.len() ==> !(#[trigger] replies[i]).0.blocked()
                && replies[i].0.trips_breaker(),
    ensures
        circuit_of(
            after_signals(
                config,
                circuits,
                job,
                PhaseView::Sending { client, attempt: 0 },
                replies_and_rests(replies),
            ).circuits,
            job.endpoint.url,
        ) == crate::circuit::after_failures(
            circuit_of(circuits, job.endpoint.url),
            config.circuit_breaker,
            reply_times(replies),
        ),
    decreases replies.len(),
{
    let sending = PhaseView::Sending { client, attempt: 0 };
    if replies.len() > 0 {
        let fewer = replies.drop_last();
        let (reply, now, subsec_nanos) = replies.last();
        assert(replies[replies.len() - 1].0 == reply);
        assert forall|i: int| 0 <= i < fewer.len() implies !(#[trigger] fewer[i]).0.blocked()
            && fewer[i].0.trips_breaker() && !fewer[i].0.accepted() by {
            assert(fewer[i] == replies[i]);
        }
        law_failed_attempts_reach_the_breaker(config, circuits, job, client, fewer);
        law_failures_use_up_the_retries(config, circuits, job, client, fewer, replies.last());
        let so_far = replies_and_rests(fewer);
        let replied = so_far.push(SignalView::Replied { reply, now, subsec_nanos });
        let course = replies_and_rests(replies);
        assert(course == replied.push(SignalView::Rested));
        assert(course.drop_last() =~= replied);
        assert(replied.drop_last() =~= so_far);
        assert(after_signals(config, circuits, job, sending, replied).phase is Pausing);
        assert(reply_times(replies).drop_last() =~= reply_times(fewer));
        assert(reply_times(replies).last() == now);
    }
}

/// A delivery touches the breaker of its own endpoint and no other.
pub proof fn law_other_endpoints_are_untouched(
    config: ConfigView,
    circuits: Map<Seq<char>, CircuitState>,
    job: JobView,
    phase: PhaseView,
    signals: Seq<SignalView>,
    other: Seq<char>,
)
    requires
        other != job.endpoint.url,
    ensures
        circuit_of(
            after_signals(config, circuits, job, phase, signals).circuits,
            other,
        ) == circuit_of(circuits, other),
    decreases signals.len(),
{
    if signals.len() > 0 {
        law_other_endpoints_are_untouched(
            config,
            circuits,
            job,
            phase,
            signals.drop_last(),
            other,
        );
    }
}

/// A finished delivery does nothing more.
pub proof fn law_finished_is_final(
    config: ConfigView,
    circuits: Map<Seq<char>, CircuitState>,
    job: JobView,
    signals: Seq<SignalView>,
)
    ensures
        after_signals(config, circuits, job, PhaseView::Finished, signals) == (StepView {
            circuits,
            phase: PhaseView::Finished,
            action: DeliveryAction::Wait,
            request: None,
            published: None,
        }),
        sends(config, circuits, job, PhaseView::Finished, signals) == 0,
    decreases signals.len(),
{
    if signals.len() > 0 {
        law_finished_is_final(config, circuits, job, signals.drop_last());
    }
}

/// A breaker that refuses a delivery ends it before anything is resolved or
/// sent, and stays as it is.
pub proof fn law_refused_delivery_goes_nowhere(
    config: ConfigView,
    circuits: Map<Seq<char>, CircuitState>,
    job: JobView,
    now: u64,
)
    requires
        !circuit_of(circuits, job.endpoint.url).admits(now),
    ensures
        ({
            let s = delivery_step(
                config,
                circuits,
                job,
                PhaseView::Start,
                SignalView::Begin { now },
            );
            &&& s.phase is Finished
            &&& s.action == (DeliveryAction::Stop { outcome: DeliveryOutcome::ShortCircuited })
            &&& circuit_of(s.circuits, job.endpoint.url) == circuit_of(circuits, job.endpoint.url)
        }),
{
}

/// A URL that does not parse, or lacks a host or a port, ends the delivery
/// before anything is resolved or sent.
pub proof fn law_unusable_url_is_dropped(
    config: ConfigView,
    circuits: Map<Seq<char>, CircuitState>,
    job: JobView,
    now: u64,
)
    requires
        circuit_of(circuits, job.endpoint.url).admits(now),
        crate::target::target_in(crate::target::url_parts(job.endpoint.url)) is Err,
    ensures
        ({
            let s = delivery_step(
                config,
                circuits,
                job,
                PhaseView::Start,
                SignalView::Begin { now },
            );
            &&& s.phase is Finished
            &&& s.action == (DeliveryAction::Stop {
                outcome: DeliveryOutcome::Dropped {
                    reason: crate::target::target_in(
                        crate::target::url_parts(job.endpoint.url),
                    )->Err_0,
                },
            })
        }),
{
}

/// The breaker counts server errors and requests without an answer, and nothing
/// else: a success closes it, an answer from a blocked address and any other
/// failure leave it as it is.
pub proof fn law_what_the_breaker_counts(
    config: ConfigView,
    circuits: Map<Seq<char>, CircuitState>,
    job: JobView,
    client: PinView,
    attempt: u32,
    reply: AttemptReply,
    now: u64,
    subsec_nanos: u32,
)
    ensures
        ({
            let before = circuit_of(circuits, job.endpoint.url);
            let s = delivery_step(
                config,
                circuits,
                job,
                PhaseView::Sending { client, attempt },
                SignalView::Replied { reply, now, subsec_nanos },
            );
            circuit_of(s.circuits, job.endpoint.url) == if reply.blocked() {
                before
            } else if reply.accepted() {
                CircuitState::fresh()
            } else if reply.trips_breaker() {
                before.after_failure(config.circuit_breaker, now)
            } else {
                before
            }
        }),
{
}

/// An answer from a blocked address ends the delivery at once, whatever its
/// status.
pub proof fn law_blocked_answer_ends_delivery(
    config: ConfigView,
    circuits: Map<Seq<char>, CircuitState>,
    job: JobView,
    client: PinView,
    attempt: u32,
    status: u16,
    now: u64,
    subsec_nanos: u32,
)
    ensures
        delivery_step(
            config,
            circuits,
            job,
            PhaseView::Sending { client, attempt },
            SignalView::Replied {
                reply: AttemptReply::Response { status, remote_blocked: true },
                now,
                subsec_nanos,
            },
        ) == stop(circuits, DeliveryOutcome::RebindingBlocked, None),
{
}

/// No pause of a delivery is a multi-minute sleep, and none is empty.
pub proof fn law_sleeps_are_bounded(
    config: ConfigView,
    circuits: Map<Seq<char>, CircuitState>,
    job: JobView,
    phase: PhaseView,
    signal: SignalView,
)
    ensures
        delivery_step(config, circuits, job, phase, signal).action matches DeliveryAction::Sleep {
            ms,
        } ==> 1 <= ms < 120_000,
{
}

} // verus!
