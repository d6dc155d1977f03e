//! The lifecycle events and their payloads.

use crate::json::{render_object, Scalar, ScalarView};
use vstd::prelude::*;

verus! {

/// What happened to a tool call.
#[derive(Debug)]
pub enum WebhookEvent {
    ToolCallCompleted {
        tool_name: String,
        request_id: String,
        duration_ms: u64,
        identity_kind: String,
        subject_id: Option<String>,
    },
    ToolCallError {
        tool_name: String,
        request_id: String,
        error_message: String,
        identity_kind: String,
    },
    SlowResponse { tool_name: String, request_id: String, duration_ms: u64, threshold_ms: u64 },
}

/// What a [`WebhookEvent`] holds, as mathematical values.
pub enum EventView {
    ToolCallCompleted {
        tool_name: Seq<char>,
        request_id: Seq<char>,
        duration_ms: u64,
        identity_kind: Seq<char>,
        subject_id: Option<Seq<char>>,
    },
    ToolCallError {
        tool_name: Seq<char>,
        request_id: Seq<char>,
        error_message: Seq<char>,
        identity_kind: Seq<char>,
    },
    SlowResponse {
        tool_name: Seq<char>,
        request_id: Seq<char>,
        duration_ms: u64,
        threshold_ms: u64,
    },
}

pub open spec fn optional_text(s: Option<String>) -> Option<Seq<char>> {
    match s {
        Some(s) => Some(s@),
        None => None,
    }
}

impl View for WebhookEvent {
    type V = EventView;

    open spec fn view(&self) -> EventView {
        match self {
            WebhookEvent::ToolCallCompleted {
                tool_name,
                request_id,
                duration_ms,
                identity_kind,
                subject_id,
            } => EventView::ToolCallCompleted {
                tool_name: tool_name@,
                request_id: request_id@,
                duration_ms: *duration_ms,
                identity_kind: identity_kind@,
                subject_id: optional_text(*subject_id),
            },
            WebhookEvent::ToolCallError { tool_name, request_id, error_message, identity_kind } =>
                EventView::ToolCallError {
                tool_name: tool_name@,
                request_id: request_id@,
                error_message: error_message@,
                identity_kind: identity_kind@,
            },
            WebhookEvent::SlowResponse { tool_name, request_id, duration_ms, threshold_ms } =>
                EventView::SlowResponse {
                tool_name: tool_name@,
                request_id: request_id@,
                duration_ms: *duration_ms,
                threshold_ms: *threshold_ms,
            },
        }
    }
}

pub open spec fn optional_scalar(s: Option<Seq<char>>) -> ScalarView {
    match s {
        Some(s) => ScalarView::Text(s),
        None => ScalarView::Null,
    }
}

impl EventView {
    /// The token by which an endpoint's filter selects this kind of event.
    pub open spec fn filter_token(self) -> Seq<char> {
        match self {
            EventView::ToolCallCompleted { .. } => "completed"@,
            EventView::ToolCallError { .. } => "error"@,
            EventView::SlowResponse { .. } => "slow_response"@,
        }
    }

    /// The name of this kind of event in a payload.
    pub open spec fn payload_name(self) -> Seq<char> {
        match self {
            EventView::ToolCallCompleted { .. } => "tool_call_completed"@,
            EventView::ToolCallError { .. } => "tool_call_error"@,
            EventView::SlowResponse { .. } => "slow_response"@,
        }
    }

    /// The members of the payload after the event's name, in order.
    pub open spec fn details(self) -> Seq<(Seq<char>, ScalarView)> {
        match self {
            EventView::ToolCallCompleted {
                tool_name,
                request_id,
                duration_ms,
                identity_kind,
                subject_id,
            } => seq![
                ("tool_name"@, ScalarView::Text(tool_name)),
                ("request_id"@, ScalarView::Text(request_id)),
                ("duration_ms"@, ScalarView::Number(duration_ms)),
                ("identity_kind"@, ScalarView::Text(identity_kind)),
                ("subject_id"@, optional_scalar(subject_id)),
            ],
            EventView::ToolCallError { tool_name, request_id, error_message, identity_kind } => seq![
                ("tool_name"@, ScalarView::Text(tool_name)),
                ("request_id"@, ScalarView::Text(request_id)),
                ("error_message"@, ScalarView::Text(error_message)),
                ("identity_kind"@, ScalarView::Text(identity_kind)),
            ],
            EventView::SlowResponse { tool_name, request_id, duration_ms, threshold_ms } => seq![
                ("tool_name"@, ScalarView::Text(tool_name)),
                ("request_id"@, ScalarView::Text(request_id)),
                ("duration_ms"@, ScalarView::Number(duration_ms)),
                ("threshold_ms"@, ScalarView::Number(threshold_ms)),
            ],
        }
    }

    /// The members of the payload: the event's name, then its details.
    pub open spec fn members(self) -> Seq<(Seq<char>, ScalarView)> {
        seq![("event"@, ScalarView::Text(self.payload_name()))] + self.details()
    }

    /// The payload, as compact JSON text.
    pub open spec fn payload(self) -> Seq<char> {
        crate::json::object_text(self.members())
    }
}

impl Clone for WebhookEvent {
    fn clone(&self) -> (r: Self)
        ensures
            r@ == self@,
    {
        match self {
            WebhookEvent::ToolCallCompleted {
                tool_name,
                request_id,
                duration_ms,
                identity_kind,
                subject_id,
            } => WebhookEvent::ToolCallCompleted {
                tool_name: tool_name.clone(),
                request_id: request_id.clone(),
                duration_ms: *duration_ms,
                identity_kind: identity_kind.clone(),
                subject_id: subject_id.clone(),
            },
            WebhookEvent::ToolCallError { tool_name, request_id, error_message, identity_kind } =>
                WebhookEvent::ToolCallError {
                tool_name: tool_name.clone(),
                request_id: request_id.clone(),
                error_message: error_message.clone(),
                identity_kind: identity_kind.clone(),
            },
            WebhookEvent::SlowResponse { tool_name, request_id, duration_ms, threshold_ms } =>
                WebhookEvent::SlowResponse {
                tool_name: tool_name.clone(),
                request_id: request_id.clone(),
                duration_ms: *duration_ms,
                threshold_ms: *threshold_ms,
            },
        }
    }
}

fn text(s: &String) -> (r: Scalar)
    ensures
        r@ == ScalarView::Text(s@),
{
    Scalar::Text(s.clone())
}

impl WebhookEvent {
    /// The members of the payload, in order.
    pub fn members(&self) -> (r: Vec<(&'static str, Scalar)>)
        ensures
            crate::json::member_views(r@) == self@.members(),
    {
        let r: Vec<(&'static str, Scalar)> = match self {
            WebhookEvent::ToolCallCompleted {
                tool_name,
                request_id,
                duration_ms,
                identity_kind,
                subject_id,
            } => vec![
                ("event", Scalar::Text("tool_call_completed".to_owned())),
                ("tool_name", text(tool_name)),
                ("request_id", text(request_id)),
                ("duration_ms", Scalar::Number(*duration_ms)),
                ("identity_kind", text(identity_kind)),
                (
                    "subject_id",
                    match subject_id {
                        Some(s) => text(s),
                        None => Scalar::Null,
                    },
                ),
            ],
            WebhookEvent::ToolCallError { tool_name, request_id, error_message, identity_kind } =>
                vec![
                ("event", Scalar::Text("tool_call_error".to_owned())),
                ("tool_name", text(tool_name)),
                ("request_id", text(request_id)),
                ("error_message", text(error_message)),
                ("identity_kind", text(identity_kind)),
            ],
            WebhookEvent::SlowResponse { tool_name, request_id, duration_ms, threshold_ms } =>
                vec![
                ("event", Scalar::Text("slow_response".to_owned())),
                ("tool_name", text(tool_name)),
                ("request_id", text(request_id)),
                ("duration_ms", Scalar::Number(*duration_ms)),
                ("threshold_ms", Scalar::Number(*threshold_ms)),
            ],
        };
        assert(crate::json::member_views(r@) =~= self@.members());
        r
    }

    /// The payload that is posted to an endpoint, as JSON text.
    pub fn payload(&self) -> (r: String)
        ensures
            r@ == self@.payload(),
    {
        render_object(&self.members())
    }
}

proof fn lemma_body_starts_with_first(members: Seq<(Seq<char>, ScalarView)>)
    requires
        members.len() > 0,
    ensures
        (crate::json::quoted(members[0].0) + ":"@ + members[0].1.rendered()).is_prefix_of(
            crate::json::object_body(members),
        ),
    decreases members.len(),
{
    let first = crate::json::quoted(members[0].0) + ":"@ + members[0].1.rendered();
    let body = crate::json::object_body(members);
    if members.len() == 1 {
        assert(body =~= first);
    } else {
        let shorter = members.drop_last();
        lemma_body_starts_with_first(shorter);
        let before = crate::json::object_body(shorter);
        assert(before.is_prefix_of(body));
        assert(first =~= body.take(first.len() as int));
    }
}

/// Every payload is an object whose first member, `event`, names the kind of
/// the event.
pub proof fn law_payload_names_its_event(event: EventView)
    ensures
        ("{"@ + crate::json::quoted("event"@) + ":"@ + crate::json::quoted(
            event.payload_name(),
        )).is_prefix_of(event.payload()),
{
    let members = event.members();
    assert(members[0] == ("event"@, ScalarView::Text(event.payload_name())));
    lemma_body_starts_with_first(members);
    let first = crate::json::quoted(members[0].0) + ":"@ + members[0].1.rendered();
    let head = "{"@ + crate::json::quoted("event"@) + ":"@ + crate::json::quoted(
        event.payload_name(),
    );
    assert(head =~= "{"@ + first);
    assert(head =~= event.payload().take(head.len() as int));
}

} // verus!
