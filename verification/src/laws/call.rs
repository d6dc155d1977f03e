//! What a tool call gives rise to, written out from the call and its result.

use crate::config::EndpointView;
use crate::event::EventView;
use crate::json::Json;
use crate::plugin::ContextView;
use vstd::prelude::*;

verus! {

/// Whether `k` is the place of the first member of an object with this name.
pub open spec fn is_member(v: Json, name: Seq<char>, k: int) -> bool {
    &&& v is Object
    &&& 0 <= k < v->Object_0@.len()
    &&& v->Object_0@[k].0@ == name
    &&& forall|j: int| 0 <= j < k ==> (#[trigger] v->Object_0@[j]).0@ != name
}

/// The value of the member in this place.
pub open spec fn member_at(v: Json, k: int) -> Json {
    v->Object_0@[k].1
}

proof fn lemma_lookup_is_first(members: Seq<(String, Json)>, name: Seq<char>)
    ensures
        match crate::json::lookup(members, name) {
            Some(value) => exists|k: int|
                0 <= k < members.len() && (#[trigger] members[k]).0@ == name && members[k].1 == value
                    && forall|j: int| 0 <= j < k ==> (#[trigger] members[j]).0@ != name,
            None => forall|j: int| 0 <= j < members.len() ==> (#[trigger] members[j]).0@ != name,
        },
    decreases members.len(),
{
    if members.len() > 0 {
        if members[0].0@ != name {
            let rest = members.drop_first();
            lemma_lookup_is_first(rest, name);
            match crate::json::lookup(rest, name) {
                Some(value) => {
                    let k = choose|k: int|
                        0 <= k < rest.len() && (#[trigger] rest[k]).0@ == name && rest[k].1 == value
                            && forall|j: int| 0 <= j < k ==> (#[trigger] rest[j]).0@ != name;
                    assert(members[k + 1] == rest[k]);
                    assert forall|j: int| 0 <= j < k + 1 implies (
                    #[trigger] members[j]).0@ != name by {
                        if j > 0 {
                            assert(rest[j - 1] == members[j]);
                        }
                    }
                },
                None => {
                    assert forall|j: int| 0 <= j < members.len() implies (
                    #[trigger] members[j]).0@ != name by {
                        if j > 0 {
                            assert(rest[j - 1] == members[j]);
                        }
                    }
                },
            }
        } else {
            assert(members[0].1 == members[0].1);
        }
    }
}

/// A member is looked up by its name, at whatever place of the object it stands;
/// of several with the same name it is the first. A name that no member has, and
/// a value that is no object, give nothing.
pub proof fn law_members_go_by_name(v: Json, name: Seq<char>, k: int)
    ensures
        is_member(v, name, k) ==> v.member(name) == Some(member_at(v, k)),
        v !is Object ==> v.member(name) is None,
        v is Object && (forall|j: int|
            0 <= j < v->Object_0@.len() ==> (#[trigger] v->Object_0@[j]).0@ != name) ==> v.member(
            name,
        ) is None,
{
    if v is Object {
        let members = v->Object_0@;
        lemma_lookup_is_first(members, name);
        if is_member(v, name, k) {
            assert(members[k].0@ == name);
            if crate::json::lookup(members, name) is Some {
                let value = crate::json::lookup(members, name)->0;
                let first = choose|i: int|
                    0 <= i < members.len() && (#[trigger] members[i]).0@ == name && members[i].1
                        == value && forall|j: int|
                        0 <= j < i ==> (#[trigger] members[j]).0@ != name;
                assert(members[first].0@ == name);
                assert(first == k);
            }
        }
    }
}

/// A call ends with an error event if and only if its result is an object with a
/// member `isError`, at any place, that is `true`; every other call ends with a
/// completed event.
pub proof fn law_what_counts_as_an_error(ctx: ContextView, result: Json, duration_ms: u64)
    ensures
        ({
            let event = crate::plugin::outcome_event(ctx, result, duration_ms);
            &&& event is ToolCallError <==> exists|k: int| #[trigger]
                is_member(result, "isError"@, k) && member_at(result, k) == Json::Bool(true)
            &&& event is ToolCallError || event is ToolCallCompleted
            &&& result.wf() ==> (event is ToolCallError <==> result is Object && exists|k: int|
                0 <= k < result->Object_0@.len() && (#[trigger] result->Object_0@[k]).0@
                    == "isError"@ && result->Object_0@[k].1 == Json::Bool(true))
        }),
{
    let name = "isError"@;
    let event = crate::plugin::outcome_event(ctx, result, duration_ms);
    law_members_go_by_name(result, name, 0);
    if result is Object {
        let members = result->Object_0@;
        lemma_lookup_is_first(members, name);
        if result.member(name) is Some {
            let value = result.member(name)->0;
            let first = choose|i: int|
                0 <= i < members.len() && (#[trigger] members[i]).0@ == name && members[i].1 == value
                    && forall|j: int| 0 <= j < i ==> (#[trigger] members[j]).0@ != name;
            assert(is_member(result, name, first));
            assert(member_at(result, first) == value);
        }
        if exists|k: int| #[trigger]
            is_member(result, name, k) && member_at(result, k) == Json::Bool(true) {
            let k = choose|k: int| #[trigger]
                is_member(result, name, k) && member_at(result, k) == Json::Bool(true);
            law_members_go_by_name(result, name, k);
            assert(members[k].0@ == name && members[k].1 == Json::Bool(true));
        }
        if result.wf() && exists|k: int|
            0 <= k < members.len() && (#[trigger] members[k]).0@ == name && members[k].1
                == Json::Bool(true) {
            let k = choose|k: int|
                0 <= k < members.len() && (#[trigger] members[k]).0@ == name && members[k].1
                    == Json::Bool(true);
            assert forall|j: int| 0 <= j < k implies (#[trigger] members[j]).0@ != name by {
                assert(members[j].0@ != members[k].0@);
            }
            assert(is_member(result, name, k));
            law_members_go_by_name(result, name, k);
        }
    }
}

/// The event that says how a call ended carries the call's own tool name,
/// request id and identity, and a completed one its duration and subject, each
/// in the field of that name.
pub proof fn law_outcome_carries_the_call(ctx: ContextView, result: Json, duration_ms: u64)
    ensures
        match crate::plugin::outcome_event(ctx, result, duration_ms) {
            EventView::ToolCallCompleted {
                tool_name,
                request_id,
                duration_ms: duration,
                identity_kind,
                subject_id,
            } => {
                &&& tool_name == ctx.tool_name
                &&& request_id == ctx.request_id
                &&& duration == duration_ms
                &&& identity_kind == ctx.identity_kind
                &&& subject_id == ctx.subject_id
            },
            EventView::ToolCallError { tool_name, request_id, error_message: _, identity_kind } => {
                &&& tool_name == ctx.tool_name
                &&& request_id == ctx.request_id
                &&& identity_kind == ctx.identity_kind
            },
            EventView::SlowResponse { .. } => false,
        },
{
}

/// Whether a content block carries no text: it has no member `text` that is
/// text.
pub open spec fn carries_no_text(block: Json) -> bool {
    forall|k: int| #[trigger] is_member(block, "text"@, k) ==> member_at(block, k) !is Text
}

proof fn lemma_carries_no_text(block: Json)
    requires
        carries_no_text(block),
    ensures
        crate::plugin::block_text(block) is None,
{
    if block is Object && block.member("text"@) is Some {
        let members = block->Object_0@;
        lemma_lookup_is_first(members, "text"@);
        let value = block.member("text"@)->0;
        let first = choose|i: int|
            0 <= i < members.len() && (#[trigger] members[i]).0@ == "text"@ && members[i].1 == value
                && forall|j: int| 0 <= j < i ==> (#[trigger] members[j]).0@ != "text"@;
        assert(is_member(block, "text"@, first));
    }
}

proof fn lemma_first_text(blocks: Seq<Json>, i: int)
    requires
        0 <= i <= blocks.len(),
        forall|j: int| 0 <= j < i ==> carries_no_text(#[trigger] blocks[j]),
        i < blocks.len() ==> crate::plugin::block_text(blocks[i]) is Some,
    ensures
        crate::plugin::first_text(blocks) == if i < blocks.len() {
            crate::plugin::block_text(blocks[i])
        } else {
            None
        },
    decreases blocks.len(),
{
    if i > 0 {
        lemma_carries_no_text(blocks[0]);
        let rest = blocks.drop_first();
        assert forall|j: int| 0 <= j < i - 1 implies carries_no_text(#[trigger] rest[j]) by {
            assert(rest[j] == blocks[j + 1]);
        }
        lemma_first_text(rest, i - 1);
    }
}

/// The message of an error is the text of the first content block that carries
/// any, wherever `content` stands in the result, `text` in the block and the
/// block among the others.
pub proof fn law_error_message_is_the_first_text(
    ctx: ContextView,
    result: Json,
    duration_ms: u64,
    e: int,
    c: int,
    i: int,
    t: int,
)
    requires
        is_member(result, "isError"@, e),
        member_at(result, e) == Json::Bool(true),
        is_member(result, "content"@, c),
        member_at(result, c) is Array,
        0 <= i < member_at(result, c)->Array_0@.len(),
        is_member(member_at(result, c)->Array_0@[i], "text"@, t),
        member_at(member_at(result, c)->Array_0@[i], t) is Text,
        forall|j: int|
            0 <= j < i ==> carries_no_text(#[trigger] member_at(result, c)->Array_0@[j]),
    ensures
        crate::plugin::outcome_event(ctx, result, duration_ms) matches EventView::ToolCallError {
            error_message,
            ..
        } && error_message == member_at(member_at(result, c)->Array_0@[i], t)->Text_0@,
{
    law_what_counts_as_an_error(ctx, result, duration_ms);
    law_members_go_by_name(result, "content"@, c);
    let blocks = member_at(result, c)->Array_0@;
    law_members_go_by_name(blocks[i], "text"@, t);
    lemma_first_text(blocks, i);
}

/// An error whose result has no content, or no block in it that carries text,
/// has the message `unknown error`.
pub proof fn law_error_without_text(ctx: ContextView, result: Json, duration_ms: u64, e: int)
    requires
        is_member(result, "isError"@, e),
        member_at(result, e) == Json::Bool(true),
        forall|c: int| #[trigger]
            is_member(result, "content"@, c) && member_at(result, c) is Array ==> forall|j: int|
                0 <= j < member_at(result, c)->Array_0@.len() ==> carries_no_text(
                    #[trigger] member_at(result, c)->Array_0@[j],
                ),
    ensures
        crate::plugin::outcome_event(ctx, result, duration_ms) matches EventView::ToolCallError {
            error_message,
            ..
        } && error_message == "unknown error"@,
{
    law_what_counts_as_an_error(ctx, result, duration_ms);
    if result.member("content"@) is Some {
        let members = result->Object_0@;
        lemma_lookup_is_first(members, "content"@);
        let value = result.member("content"@)->0;
        let c = choose|i: int|
            0 <= i < members.len() && (#[trigger] members[i]).0@ == "content"@ && members[i].1
                == value && forall|j: int|
                0 <= j < i ==> (#[trigger] members[j]).0@ != "content"@;
        assert(is_member(result, "content"@, c));
        if value is Array {
            let blocks = member_at(result, c)->Array_0@;
            lemma_first_text(blocks, blocks.len() as int);
        }
    }
}

/// Whether an endpoint's filter lets events with this token through: it is
/// empty, or one of its tokens is `all` or this one.
pub open spec fn hears(events: Seq<Seq<char>>, token: Seq<char>) -> bool {
    events.len() == 0 || exists|i: int|
        0 <= i < events.len() && ((#[trigger] events[i]) == "all"@ || events[i] == token)
}

/// An endpoint is told of exactly those events that its filter lets through.
pub proof fn law_filter_goes_by_token(e: EndpointView, token: Seq<char>)
    ensures
        e.matches(token) <==> hears(e.events, token),
{
    if e.matches(token) && e.events.len() > 0 {
        let i = choose|i: int|
            0 <= i < e.events.len() && (e.events[i] == "all"@ || e.events[i] == token);
        assert(e.events[i] == "all"@ || e.events[i] == token);
    }
    if hears(e.events, token) && e.events.len() > 0 {
        let i = choose|i: int|
            0 <= i < e.events.len() && ((#[trigger] e.events[i]) == "all"@ || e.events[i] == token);
        assert(e.events.contains(e.events[i]));
    }
}

/// The token by which each kind of event is filtered, and the name that it has
/// in a payload.
pub proof fn law_two_vocabularies(event: EventView)
    ensures
        match event {
            EventView::ToolCallCompleted { .. } => event.filter_token() == "completed"@
                && event.payload_name() == "tool_call_completed"@,
            EventView::ToolCallError { .. } => event.filter_token() == "error"@
                && event.payload_name() == "tool_call_error"@,
            EventView::SlowResponse { .. } => event.filter_token() == "slow_response"@
                && event.payload_name() == "slow_response"@,
        },
{
}

/// One more endpoint at the end adds one slow-response notification, for that
/// endpoint alone, if its threshold is set and exceeded and its filter lets such
/// events through, and nothing otherwise. The event carries the call's own tool
/// name, request id and duration, and that endpoint's threshold.
pub proof fn law_slow_event_for_one_more_endpoint(
    endpoints: Seq<EndpointView>,
    e: EndpointView,
    ctx: ContextView,
    duration_ms: u64,
)
    ensures
        crate::plugin::slow_notifications(Seq::empty(), ctx, duration_ms).len() == 0,
        ({
            let before = crate::plugin::slow_notifications(endpoints, ctx, duration_ms);
            let after = crate::plugin::slow_notifications(endpoints.push(e), ctx, duration_ms);
            if e.slow_threshold_ms is Some && duration_ms > e.slow_threshold_ms->0 && hears(
                e.events,
                "slow_response"@,
            ) {
                &&& after.len() == before.len() + 1
                &&& after.take(before.len() as int) == before
                &&& after.last().endpoints == seq![e]
                &&& after.last().event matches EventView::SlowResponse {
                    tool_name,
                    request_id,
                    duration_ms: duration,
                    threshold_ms,
                } && {
                    &&& tool_name == ctx.tool_name
                    &&& request_id == ctx.request_id
                    &&& duration == duration_ms
                    &&& threshold_ms == e.slow_threshold_ms->0
                }
            } else {
                after == before
            }
        }),
{
    reveal(Seq::filter);
    law_filter_goes_by_token(e, "slow_response"@);
    assert(endpoints.push(e).drop_last() =~= endpoints);
    let before = crate::plugin::slow_notifications(endpoints, ctx, duration_ms);
    let after = crate::plugin::slow_notifications(endpoints.push(e), ctx, duration_ms);
    if crate::plugin::finds_slow(e, duration_ms) {
        assert(after.take(before.len() as int) =~= before);
    }
}

/// Every slow-response event of a call carries the call's own tool name, request
/// id and duration, each in the field of that name, and goes to one endpoint,
/// whose threshold it carries and the call exceeded.
pub proof fn law_slow_events_carry_the_call(
    endpoints: Seq<EndpointView>,
    ctx: ContextView,
    result: Json,
    duration_ms: u64,
    i: int,
)
    requires
        0 <= i < crate::plugin::notifications(endpoints, ctx, result, duration_ms).len(),
    ensures
        ({
            let n = crate::plugin::notifications(endpoints, ctx, result, duration_ms)[i];
            n.event matches EventView::SlowResponse {
                tool_name,
                request_id,
                duration_ms: duration,
                threshold_ms,
            } ==> {
                &&& tool_name == ctx.tool_name
                &&& request_id == ctx.request_id
                &&& duration == duration_ms
                &&& duration_ms > threshold_ms
                &&& n.endpoints.len() == 1
                &&& endpoints.contains(n.endpoints[0])
                &&& n.endpoints[0].slow_threshold_ms == Some(threshold_ms)
                &&& hears(n.endpoints[0].events, "slow_response"@)
            }
        }),
{
    let slow = crate::plugin::slow_notifications(endpoints, ctx, duration_ms);
    if i < slow.len() {
        let pred = |e: EndpointView| crate::plugin::finds_slow(e, duration_ms);
        let e = endpoints.filter(pred)[i];
        endpoints.lemma_filter_pred(pred, i);
        endpoints.lemma_filter_contains_rev(pred, e);
        law_filter_goes_by_token(e, "slow_response"@);
    }
}

/// One more endpoint at the end joins those that are told how the call ended if
/// its filter lets the event through, and changes nothing otherwise; with no
/// endpoint nobody is told.
pub proof fn law_outcome_for_one_more_endpoint(
    endpoints: Seq<EndpointView>,
    e: EndpointView,
    event: EventView,
)
    ensures
        crate::plugin::outcome_notifications(Seq::empty(), event).len() == 0,
        ({
            let token = match event {
                EventView::ToolCallCompleted { .. } => "completed"@,
                EventView::ToolCallError { .. } => "error"@,
                EventView::SlowResponse { .. } => "slow_response"@,
            };
            let before = crate::plugin::outcome_notifications(endpoints, event);
            let after = crate::plugin::outcome_notifications(endpoints.push(e), event);
            let told = if before.len() == 0 {
                Seq::empty()
            } else {
                before[0].endpoints
            };
            if hears(e.events, token) {
                &&& after.len() == 1
                &&& after[0].event == event
                &&& after[0].endpoints == told.push(e)
            } else {
                after == before
            }
        }),
{
    reveal(Seq::filter);
    law_filter_goes_by_token(e, event.filter_token());
    assert(endpoints.push(e).drop_last() =~= endpoints);
    let matching = crate::plugin::listeners(endpoints, event.filter_token());
    assert(matching.len() == 0 ==> matching =~= Seq::<EndpointView>::empty());
}

/// A call gives rise to its slow-response notifications, and after them to the
/// one that says how it ended, if anybody hears of that.
pub proof fn law_all_that_a_call_gives_rise_to(
    endpoints: Seq<EndpointView>,
    ctx: ContextView,
    result: Json,
    duration_ms: u64,
)
    ensures
        ({
            let all = crate::plugin::notifications(endpoints, ctx, result, duration_ms);
            let slow = crate::plugin::slow_notifications(endpoints, ctx, duration_ms);
            let event = crate::plugin::outcome_event(ctx, result, duration_ms);
            let outcome = crate::plugin::outcome_notifications(endpoints, event);
            &&& all.take(slow.len() as int) == slow
            &&& all.skip(slow.len() as int) == outcome
            &&& outcome.len() <= 1
            &&& forall|i: int| 0 <= i < slow.len() ==> (#[trigger] all[i]).event is SlowResponse
            &&& forall|i: int| slow.len() <= i < all.len() ==> (#[trigger] all[i]).event == event
        }),
{
    let all = crate::plugin::notifications(endpoints, ctx, result, duration_ms);
    let slow = crate::plugin::slow_notifications(endpoints, ctx, duration_ms);
    let outcome = crate::plugin::outcome_notifications(
        endpoints,
        crate::plugin::outcome_event(ctx, result, duration_ms),
    );
    assert(all.take(slow.len() as int) =~= slow);
    assert(all.skip(slow.len() as int) =~= outcome);
}

} // verus!
