//! The mathematical models hold what the values hold.

use crate::circuit::CircuitState;
use crate::config::{EndpointConfig, WebhookPluginConfig};
use crate::delivery::{
    DeliveryPhase, DeliverySignal, DeliveryStep, Job, PhaseView, Request, SignalView,
};
use crate::event::{EventView, WebhookEvent};
use crate::json::Scalar;
use crate::plugin::PluginContext;
use crate::queue::Notification;
use crate::target::{
    DropReason, EndpointTarget, PinView, PinnedClient, ResolvedAddress, TargetView, UrlParts,
};
use vstd::prelude::*;

verus! {

/// The model of an endpoint and of a configuration holds every field of it, and
/// every item in its place.
pub proof fn law_model_of_a_configuration(e: EndpointConfig, c: WebhookPluginConfig)
    ensures
        e@.url == e.url@,
        e@.events.len() == e.events@.len(),
        forall|i: int| 0 <= i < e.events@.len() ==> #[trigger] e@.events[i] == e.events@[i]@,
        e@.slow_threshold_ms == e.slow_threshold_ms,
        e@.headers.len() == e.headers@.len(),
        forall|i: int|
            0 <= i < e.headers@.len() ==> (#[trigger] e@.headers[i]).0 == e.headers@[i].0@
                && e@.headers[i].1 == e.headers@[i].1@,
        e@.allow_private_backends == e.allow_private_backends,
        c@.endpoints.len() == c.endpoints@.len(),
        forall|i: int| 0 <= i < c.endpoints@.len() ==> #[trigger] c@.endpoints[i] == c.endpoints@[i]@,
        c@.max_retries == c.max_retries,
        c@.retry_backoff_ms == c.retry_backoff_ms,
        c@.timeout_ms == c.timeout_ms,
        c@.buffer_size == c.buffer_size,
        c@.circuit_breaker == c.circuit_breaker,
{
}

/// The model of a call's context holds each field under its own name.
pub proof fn law_model_of_a_context(ctx: PluginContext)
    ensures
        ctx@.request_id == ctx.request_id@,
        ctx@.tool_name == ctx.tool_name@,
        ctx@.identity_kind == ctx.identity.kind@,
        ctx@.subject_id is Some <==> ctx.identity.subject_id is Some,
        ctx@.subject_id is Some ==> ctx@.subject_id->0 == ctx.identity.subject_id->0@,
{
}

/// The model of an event is of the same kind, and holds each field under its own
/// name.
pub proof fn law_model_of_an_event(event: WebhookEvent)
    ensures
        match event {
            WebhookEvent::ToolCallCompleted {
                tool_name,
                request_id,
                duration_ms,
                identity_kind,
                subject_id,
            } => event@ == (EventView::ToolCallCompleted {
                tool_name: tool_name@,
                request_id: request_id@,
                duration_ms,
                identity_kind: identity_kind@,
                subject_id: match subject_id {
                    Some(s) => Some(s@),
                    None => None,
                },
            }),
            WebhookEvent::ToolCallError { tool_name, request_id, error_message, identity_kind } =>
                event@ == (EventView::ToolCallError {
                tool_name: tool_name@,
                request_id: request_id@,
                error_message: error_message@,
                identity_kind: identity_kind@,
            }),
            WebhookEvent::SlowResponse { tool_name, request_id, duration_ms, threshold_ms } =>
                event@ == (EventView::SlowResponse {
                tool_name: tool_name@,
                request_id: request_id@,
                duration_ms,
                threshold_ms,
            }),
        },
{
}

/// The models of a notification, of a job and of a request hold each field under
/// its own name, and every item in its place.
pub proof fn law_model_of_a_delivery(n: Notification, job: Job, request: Request)
    ensures
        n@.event == n.event@,
        n@.endpoints.len() == n.endpoints@.len(),
        forall|i: int| 0 <= i < n.endpoints@.len() ==> #[trigger] n@.endpoints[i] == n.endpoints@[i]@,
        job@.endpoint == job.endpoint@,
        job@.payload == job.payload@,
        request@.method == request.method,
        request@.url == request.url@,
        request@.headers.len() == request.headers@.len(),
        forall|i: int|
            0 <= i < request.headers@.len() ==> (#[trigger] request@.headers[i]).0
                == request.headers@[i].0@ && request@.headers[i].1 == request.headers@[i].1@,
        request@.body == request.body@,
{
}

/// The models of a target, of an address and of a client hold each field under
/// its own name.
pub proof fn law_model_of_a_target(
    parts: UrlParts,
    target: EndpointTarget,
    address: ResolvedAddress,
    client: PinnedClient,
)
    ensures
        parts@.port == parts.port,
        parts@.host is Some <==> parts.host is Some,
        parts@.host is Some ==> parts@.host->0 == parts.host->0@,
        target@.host == target.host@,
        target@.port == target.port,
        address@.address == address.address@,
        address@.private == address.private,
        client@.host == client.host@,
        client@.address == client.address@,
        client@.timeout_ms == client.timeout_ms,
        client@.max_idle_per_host == client.max_idle_per_host,
        client@.follow_redirects == client.follow_redirects,
{
}

/// The model of a resolution holds every address in its place.
pub proof fn law_model_of_a_resolution(addresses: Vec<ResolvedAddress>)
    ensures
        crate::target::resolution(None) is None,
        crate::target::resolution(Some(addresses)) matches Some(views) && {
            &&& views.len() == addresses@.len()
            &&& forall|i: int|
                0 <= i < addresses@.len() ==> #[trigger] views[i] == addresses@[i]@
        },
{
}

/// The models of where a delivery stands, of what has happened and of a step say
/// the same as these.
pub proof fn law_model_of_a_step(
    phase: DeliveryPhase,
    signal: DeliverySignal,
    step: DeliveryStep,
    circuits: Map<Seq<char>, CircuitState>,
)
    ensures
        match phase {
            DeliveryPhase::Start => phase@ == PhaseView::Start,
            DeliveryPhase::Resolving { target } => phase@ == (PhaseView::Resolving {
                target: target@,
            }),
            DeliveryPhase::Building { client } => phase@ == (PhaseView::Building {
                client: client@,
            }),
            DeliveryPhase::Sending { client, attempt } => phase@ == (PhaseView::Sending {
                client: client@,
                attempt,
            }),
            DeliveryPhase::Pausing { client, attempt } => phase@ == (PhaseView::Pausing {
                client: client@,
                attempt,
            }),
            DeliveryPhase::Finished => phase@ == PhaseView::Finished,
        },
        match signal {
            DeliverySignal::Begin { now } => signal@ == (SignalView::Begin { now }),
            DeliverySignal::Resolved { addresses } => signal@ == (SignalView::Resolved {
                addresses: crate::target::resolution(addresses),
            }),
            DeliverySignal::ClientBuilt { built } => signal@ == (SignalView::ClientBuilt { built }),
            DeliverySignal::Replied { reply, now, subsec_nanos } => signal@ == (
            SignalView::Replied { reply, now, subsec_nanos }),
            DeliverySignal::Rested => signal@ == SignalView::Rested,
        },
        ({
            let view = crate::sender::step_view(step, circuits);
            &&& view.circuits == circuits
            &&& view.phase == step.phase@
            &&& view.action == step.action
            &&& view.published == step.published
            &&& view.request is Some <==> step.request is Some
            &&& view.request is Some ==> view.request->0 == step.request->0@
        }),
{
}

/// What an outcome is told apart by is kept in its model.
pub proof fn law_model_of_an_outcome(
    target: Result<EndpointTarget, DropReason>,
    client: Result<PinnedClient, DropReason>,
    parts: Option<UrlParts>,
    text: Option<String>,
)
    ensures
        match target {
            Ok(t) => crate::target::target_result(target) == Ok::<TargetView, DropReason>(t@),
            Err(e) => crate::target::target_result(target) == Err::<TargetView, DropReason>(e),
        },
        match client {
            Ok(c) => crate::target::pin_result(client) == Ok::<PinView, DropReason>(c@),
            Err(e) => crate::target::pin_result(client) == Err::<PinView, DropReason>(e),
        },
        match parts {
            Some(p) => crate::target::optional_parts(parts) == Some(p@),
            None => crate::target::optional_parts(parts) is None,
        },
        match text {
            Some(s) => crate::event::optional_text(text) == Some(s@),
            None => crate::event::optional_text(text) is None,
        },
{
}

/// The model of the members of an object holds each in its place.
pub proof fn law_model_of_members(members: Seq<(&'static str, Scalar)>)
    ensures
        ({
            let views = crate::json::member_views(members);
            &&& views.len() == members.len()
            &&& forall|i: int|
                0 <= i < members.len() ==> (#[trigger] views[i]).0 == members[i].0@ && views[i].1
                    == members[i].1@
        }),
{
}

/// The model of a member value, and its text, are of the same kind as the value.
pub proof fn law_model_of_a_scalar(scalar: Scalar)
    ensures
        match scalar {
            Scalar::Null => scalar@.rendered() == "null"@,
            Scalar::Number(n) => scalar@.rendered() == crate::json::decimal(n as nat),
            Scalar::Text(s) => scalar@.rendered() == crate::json::quoted(s@),
        },
{
}

} // verus!
