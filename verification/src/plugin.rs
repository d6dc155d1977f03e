//! The plugin: it lets every tool call through, and notes what happened.

use crate::config::{
    ConfigView, EndpointConfig, EndpointView, WebhookPluginConfig, WEBHOOK_RETRY_HARD_CAP,
};
use crate::event::{EventView, WebhookEvent};
use crate::json::Json;
use crate::queue::{EventQueue, Notification, NotificationView};
use crate::sender::BackgroundSender;
use vstd::prelude::*;
use vstd::string::StringExecFns;

verus! {

/// The name under which a gateway loads the plugin.
pub const PLUGIN_ID: &'static str = "dev.mcpg.webhook";

/// The plugin's version.
pub const PLUGIN_VERSION: &'static str = "0.1.0";

/// How long a shutdown waits for queued events to leave, in milliseconds.
pub const SHUTDOWN_DRAIN_BUDGET_MS: u64 = 1_000;

/// A gate's answer to a request.
#[derive(Debug, Clone, Copy, PartialEq, Eq, Structural)]
pub enum GateDecision {
    Allow,
    Deny,
}

/// The kinds of plugin that a gateway loads.
#[derive(Debug, Clone, Copy, PartialEq, Eq, Structural)]
pub enum PluginClass {
    ToolGate,
}

/// How the plugin presents itself to the gateway.
#[derive(Debug)]
pub struct PluginManifest {
    pub id: String,
    pub version: String,
    pub name: String,
    pub plugin_class: PluginClass,
    pub protocol_version: String,
    pub license: Option<String>,
    pub required_capabilities: Vec<String>,
    pub tags: Vec<String>,
    pub provides: Vec<String>,
    pub provides_schemes: Vec<String>,
    pub module_path_prefix: String,
    pub backend_profile: Option<String>,
}

impl PluginManifest {
    /// The manifest of the webhook plugin.
    pub open spec fn is_webhook_manifest(self) -> bool {
        &&& self.id@ == "dev.mcpg.webhook"@
        &&& self.version@ == "0.1.0"@
        &&& self.name@ == "Webhook Notifications"@
        &&& self.plugin_class == PluginClass::ToolGate
        &&& self.protocol_version@ == "1.0"@
        &&& self.license is None
        &&& self.required_capabilities@.len() == 0
        &&& self.tags@.len() == 0
        &&& self.provides@.len() == 0
        &&& self.provides_schemes@.len() == 0
        &&& self.module_path_prefix@ == "mcpg_plugin_integration_webhook"@
        &&& self.backend_profile is None
    }
}

/// Who made a tool call.
#[derive(Debug)]
pub struct PluginIdentity {
    pub kind: String,
    pub subject_id: Option<String>,
}

/// What the plugin is told of a tool call.
#[derive(Debug)]
pub struct PluginContext {
    pub request_id: String,
    pub tool_name: String,
    pub identity: PluginIdentity,
}

/// What a [`PluginContext`] holds, as mathematical values.
pub struct ContextView {
    pub request_id: Seq<char>,
    pub tool_name: Seq<char>,
    pub identity_kind: Seq<char>,
    pub subject_id: Option<Seq<char>>,
}

impl View for PluginContext {
    type V = ContextView;

    open spec fn view(&self) -> ContextView {
        ContextView {
            request_id: self.request_id@,
            tool_name: self.tool_name@,
            identity_kind: self.identity.kind@,
            subject_id: crate::event::optional_text(self.identity.subject_id),
        }
    }
}

/// Whether a tool result carries `isError: true`.
pub open spec fn carries_error(result: Json) -> bool {
    result.member("isError"@) == Some(Json::Bool(true))
}

/// The text that a content block carries: its member `text`, if that is text.
pub open spec fn block_text(block: Json) -> Option<Seq<char>> {
    match block.member("text"@) {
        Some(Json::Text(s)) => Some(s@),
        _ => None,
    }
}

/// The text of the first among the given content blocks that carries any.
pub open spec fn first_text(blocks: Seq<Json>) -> Option<Seq<char>>
    decreases blocks.len(),
{
    if blocks.len() == 0 {
        None
    } else if block_text(blocks[0]) is Some {
        block_text(blocks[0])
    } else {
        first_text(blocks.drop_first())
    }
}

/// The message of an error result: the text of its first content block that
/// carries any.
pub open spec fn message_of(result: Json) -> Seq<char> {
    match result.member("content"@) {
        Some(Json::Array(blocks)) => match first_text(blocks@) {
            Some(s) => s,
            None => "unknown error"@,
        },
        _ => "unknown error"@,
    }
}

/// The event that says how a call ended.
pub open spec fn outcome_event(ctx: ContextView, result: Json, duration_ms: u64) -> EventView {
    if carries_error(result) {
        EventView::ToolCallError {
            tool_name: ctx.tool_name,
            request_id: ctx.request_id,
            error_message: message_of(result),
            identity_kind: ctx.identity_kind,
        }
    } else {
        EventView::ToolCallCompleted {
            tool_name: ctx.tool_name,
            request_id: ctx.request_id,
            duration_ms,
            identity_kind: ctx.identity_kind,
            subject_id: ctx.subject_id,
        }
    }
}

/// The endpoints whose filter selects the given token, in their order.
pub open spec fn listeners(endpoints: Seq<EndpointView>, token: Seq<char>) -> Seq<EndpointView> {
    endpoints.filter(|e: EndpointView| e.matches(token))
}

/// The notification of how a call ended; none, where nobody listens.
pub open spec fn outcome_notifications(
    endpoints: Seq<EndpointView>,
    event: EventView,
) -> Seq<NotificationView> {
    let matching = listeners(endpoints, event.filter_token());
    if matching.len() == 0 {
        Seq::empty()
    } else {
        seq![NotificationView { event, endpoints: matching }]
    }
}

/// Whether the call was slow by this endpoint's measure, and it wants to know.
pub open spec fn finds_slow(e: EndpointView, duration_ms: u64) -> bool {
    e.slow_threshold_ms is Some && duration_ms > e.slow_threshold_ms->0 && e.matches(
        "slow_response"@,
    )
}

/// The notification that tells one endpoint of a slow call.
pub open spec fn slow_notification(
    e: EndpointView,
    ctx: ContextView,
    duration_ms: u64,
) -> NotificationView {
    NotificationView {
        event: EventView::SlowResponse {
            tool_name: ctx.tool_name,
            request_id: ctx.request_id,
            duration_ms,
            threshold_ms: e.slow_threshold_ms->0,
        },
        endpoints: seq![e],
    }
}

/// One notification for each endpoint that finds the call slow.
pub open spec fn slow_notifications(
    endpoints: Seq<EndpointView>,
    ctx: ContextView,
    duration_ms: u64,
) -> Seq<NotificationView> {
    endpoints.filter(|e: EndpointView| finds_slow(e, duration_ms)).map_values(
        |e: EndpointView| slow_notification(e, ctx, duration_ms),
    )
}

/// All that a finished call gives rise to, in the order in which it is queued.
pub open spec fn notifications(
    endpoints: Seq<EndpointView>,
    ctx: ContextView,
    result: Json,
    duration_ms: u64,
) -> Seq<NotificationView> {
    slow_notifications(endpoints, ctx, duration_ms) + outcome_notifications(
        endpoints,
        outcome_event(ctx, result, duration_ms),
    )
}

proof fn lemma_filter_step<A>(s: Seq<A>, i: int, pred: spec_fn(A) -> bool)
    requires
        0 <= i < s.len(),
    ensures
        s.take(i + 1).filter(pred) == if pred(s[i]) {
            s.take(i).filter(pred).push(s[i])
        } else {
            s.take(i).filter(pred)
        },
{
    reveal(Seq::filter);
    assert(s.take(i + 1).drop_last() =~= s.take(i));
    assert(s.take(i + 1).last() == s[i]);
}

/// Whether the tool result is an error.
fn is_error(result: &Json) -> (r: bool)
    ensures
        r == carries_error(*result),
{
    match result.get("isError") {
        Some(v) => match v.as_bool() {
            Some(b) => b,
            None => false,
        },
        None => false,
    }
}

/// The message of an error result.
fn error_message(result: &Json) -> (r: String)
    ensures
        r@ == message_of(*result),
{
    let content = match result.get("content") {
        Some(content) => content,
        None => return "unknown error".to_owned(),
    };
    let blocks = match content.as_array() {
        Some(blocks) => blocks,
        None => return "unknown error".to_owned(),
    };
    assert(result.member("content"@) == Some(Json::Array(*blocks)));
    assert(blocks@.skip(0) =~= blocks@);
    for i in 0..blocks.len()
        invariant
            result.member("content"@) == Some(Json::Array(*blocks)),
            first_text(blocks@) == first_text(blocks@.skip(i as int)),
    {
        assert(blocks@.skip(i as int).drop_first() =~= blocks@.skip(i + 1));
        if let Some(text) = blocks[i].get("text") {
            if let Some(s) = text.as_str() {
                return s.to_owned();
            }
        }
    }
    assert(blocks@.skip(blocks@.len() as int) =~= Seq::<Json>::empty());
    "unknown error".to_owned()
}

/// The webhook plugin.
pub struct WebhookPlugin {
    config: WebhookPluginConfig,
    manifest: PluginManifest,
}

impl WebhookPlugin {
    /// The configuration that the plugin applies.
    pub closed spec fn applied(&self) -> ConfigView {
        self.config@
    }

    pub closed spec fn spec_manifest(&self) -> PluginManifest {
        self.manifest
    }

    /// A plugin with the given configuration, in which the number of retries
    /// is held to [`WEBHOOK_RETRY_HARD_CAP`].
    pub fn new(config: WebhookPluginConfig) -> (r: WebhookPlugin)
        ensures
            r.applied() == config@.capped(),
            r.applied().max_retries <= WEBHOOK_RETRY_HARD_CAP,
            r.spec_manifest().is_webhook_manifest(),
    {
        let mut config = config;
        if config.max_retries > WEBHOOK_RETRY_HARD_CAP {
            config.max_retries = WEBHOOK_RETRY_HARD_CAP;
        }
        WebhookPlugin {
            config,
            manifest: PluginManifest {
                id: PLUGIN_ID.to_owned(),
                version: PLUGIN_VERSION.to_owned(),
                name: "Webhook Notifications".to_owned(),
                plugin_class: PluginClass::ToolGate,
                protocol_version: "1.0".to_owned(),
                license: None,
                required_capabilities: Vec::new(),
                tags: Vec::new(),
                provides: Vec::new(),
                provides_schemes: Vec::new(),
                module_path_prefix: "mcpg_plugin_integration_webhook".to_owned(),
                backend_profile: None,
            },
        }
    }

    /// The plugin for an operator's configuration block. `parsed` is what the
    /// block was read as. An empty or absent block yields the defaults,
    /// whatever was read; a present block that could not be read is refused,
    /// with a message that says why.
    pub fn from_config_json(
        config_json: &str,
        parsed: Result<WebhookPluginConfig, String>,
    ) -> (r: Result<WebhookPlugin, String>)
        ensures
            r is Err <==> !is_absent(config_json@) && parsed is Err,
            match r {
                Ok(plugin) => {
                    &&& plugin.applied() == if is_absent(config_json@) {
                        ConfigView::defaults()
                    } else {
                        parsed->Ok_0@.capped()
                    }
                    &&& plugin.spec_manifest().is_webhook_manifest()
                },
                Err(message) => message@ == "webhook config is malformed, failing closed: "@
                    + parsed->Err_0@,
            },
    {
        if config_json.is_empty() || config_json.to_owned() == "null".to_owned() {
            return Ok(WebhookPlugin::new(WebhookPluginConfig::default()));
        }
        match parsed {
            Ok(config) => Ok(WebhookPlugin::new(config)),
            Err(reason) => {
                let message: String = "webhook config is malformed, failing closed: ".to_owned();
                Err(message.concat(reason.as_str()))
            },
        }
    }

    /// The configuration that the plugin applies.
    pub fn config(&self) -> (r: &WebhookPluginConfig)
        ensures
            r@ == self.applied(),
    {
        &self.config
    }

    /// How the plugin presents itself.
    pub fn manifest(&self) -> (r: &PluginManifest)
        ensures
            *r == self.spec_manifest(),
    {
        &self.manifest
    }

    /// The queue between this plugin and its background sender, still empty.
    pub fn event_queue(&self) -> (r: EventQueue)
        ensures
            r@ == crate::queue::QueueView::fresh(self.applied().buffer_size),
            r@.wf(),
    {
        EventQueue::new(self.config.buffer_size)
    }

    /// The sender that delivers what this plugin queues.
    pub fn background_sender(&self) -> (r: BackgroundSender)
        ensures
            r.applied() == self.applied(),
            r.circuits() == Map::<Seq<char>, crate::circuit::CircuitState>::empty(),
            r.backlog() == Seq::<crate::delivery::JobView>::empty(),
            r.wf(),
    {
        BackgroundSender::new(self.config.clone())
    }

    /// Before a call: always allowed.
    pub fn evaluate_pre(&self, ctx: &PluginContext) -> (r: GateDecision)
        ensures
            r == GateDecision::Allow,
    {
        GateDecision::Allow
    }

    /// The notifications for the endpoints that find the call slow.
    fn slow_responses(&self, ctx: &PluginContext, duration_ms: u64) -> (r: Vec<Notification>)
        ensures
            crate::queue::notification_views(r@) == slow_notifications(
                self.applied().endpoints,
                ctx@,
                duration_ms,
            ),
    {
        let ghost endpoints = self.applied().endpoints;
        let ghost pred = |e: EndpointView| finds_slow(e, duration_ms);
        let ghost make = |e: EndpointView| slow_notification(e, ctx@, duration_ms);
        let mut r: Vec<Notification> = Vec::new();
        assert(endpoints.take(0).filter(pred) =~= Seq::<EndpointView>::empty()) by {
            reveal(Seq::filter);
        }
        assert(crate::queue::notification_views(r@) =~= endpoints.take(0).filter(pred).map_values(
            make,
        ));
        for i in 0..self.config.endpoints.len()
            invariant
                endpoints == crate::config::endpoint_views(self.config.endpoints@),
                pred == (|e: EndpointView| finds_slow(e, duration_ms)),
                make == (|e: EndpointView| slow_notification(e, ctx@, duration_ms)),
                crate::queue::notification_views(r@) == endpoints.take(i as int).filter(
                    pred,
                ).map_values(make),
        {
            let ghost before = r@;
            let endpoint = &self.config.endpoints[i];
            assert(endpoints[i as int] == endpoint@);
            proof {
                lemma_filter_step(endpoints, i as int, pred);
            }
            if let Some(threshold) = endpoint.slow_threshold_ms {
                if duration_ms > threshold && endpoint.matches_event("slow_response") {
                    let event = WebhookEvent::SlowResponse {
                        tool_name: ctx.tool_name.clone(),
                        request_id: ctx.request_id.clone(),
                        duration_ms,
                        threshold_ms: threshold,
                    };
                    let listener: Vec<EndpointConfig> = vec![endpoint.clone()];
                    let n = Notification { event, endpoints: listener };
                    assert(n@.endpoints =~= seq![endpoint@]);
                    assert(n@ == make(endpoint@));
                    r.push(n);
                    assert(crate::queue::notification_views(r@)
                        =~= crate::queue::notification_views(before).push(n@));
                    assert(endpoints.take(i + 1).filter(pred).map_values(make)
                        =~= endpoints.take(i as int).filter(pred).map_values(make).push(
                        make(endpoint@),
                    ));
                }
            }
        }
        assert(endpoints.take(endpoints.len() as int) =~= endpoints);
        r
    }

    /// The endpoints whose filter selects the given token.
    fn matching(&self, token: &str) -> (r: Vec<EndpointConfig>)
        ensures
            crate::config::endpoint_views(r@) == listeners(self.applied().endpoints, token@),
    {
        let ghost endpoints = self.applied().endpoints;
        let ghost pred = |e: EndpointView| e.matches(token@);
        let mut r: Vec<EndpointConfig> = Vec::new();
        assert(endpoints.take(0).filter(pred) =~= Seq::<EndpointView>::empty()) by {
            reveal(Seq::filter);
        }
        assert(crate::config::endpoint_views(r@) =~= endpoints.take(0).filter(pred));
        for i in 0..self.config.endpoints.len()
            invariant
                endpoints == crate::config::endpoint_views(self.config.endpoints@),
                pred == (|e: EndpointView| e.matches(token@)),
                crate::config::endpoint_views(r@) == endpoints.take(i as int).filter(pred),
        {
            let ghost before = r@;
            let endpoint = &self.config.endpoints[i];
            assert(endpoints[i as int] == endpoint@);
            proof {
                lemma_filter_step(endpoints, i as int, pred);
            }
            if endpoint.matches_event(token) {
                let copy = endpoint.clone();
                r.push(copy);
                assert(crate::config::endpoint_views(r@) =~= crate::config::endpoint_views(
                    before,
                ).push(copy@));
            }
        }
        assert(endpoints.take(endpoints.len() as int) =~= endpoints);
        r
    }

    /// After a call that took `duration_ms` and gave `result`: always allowed.
    /// What the call gave rise to is offered to the queue, which never waits.
    pub fn evaluate_post(
        &self,
        ctx: &PluginContext,
        result: &Json,
        duration_ms: u64,
        queue: &mut EventQueue,
    ) -> (r: GateDecision)
        ensures
            r == GateDecision::Allow,
            final(queue)@ == old(queue)@.offer_all(
                notifications(self.applied().endpoints, ctx@, *result, duration_ms),
            ),
            old(queue)@.wf() ==> final(queue)@.wf(),
    {
        let ghost all = notifications(self.applied().endpoints, ctx@, *result, duration_ms);
        let mut pending: Vec<Notification> = self.slow_responses(ctx, duration_ms);
        let (event, token) = if is_error(result) {
            (
                WebhookEvent::ToolCallError {
                    tool_name: ctx.tool_name.clone(),
                    request_id: ctx.request_id.clone(),
                    error_message: error_message(result),
                    identity_kind: ctx.identity.kind.clone(),
                },
                "error",
            )
        } else {
            (
                WebhookEvent::ToolCallCompleted {
                    tool_name: ctx.tool_name.clone(),
                    request_id: ctx.request_id.clone(),
                    duration_ms,
                    identity_kind: ctx.identity.kind.clone(),
                    subject_id: ctx.identity.subject_id.clone(),
                },
                "completed",
            )
        };
        assert(event@ == outcome_event(ctx@, *result, duration_ms));
        let endpoints: Vec<EndpointConfig> = self.matching(token);
        if endpoints.len() > 0 {
            pending.push(Notification { event, endpoints });
        }
        assert(crate::queue::notification_views(pending@) =~= all);
        for n in iter: pending
            invariant
                crate::queue::notification_views(iter.seq()) == all,
                queue@ == old(queue)@.offer_all(all.take(iter.index() as int)),
                old(queue)@.wf() ==> queue@.wf(),
        {
            let ghost i = iter.index() as int;
            assert(all.take(i + 1).drop_last() =~= all.take(i));
            assert(all.take(i + 1).last() == n@);
            queue.try_send(n);
        }
        assert(all.take(all.len() as int) =~= all);
        GateDecision::Allow
    }
}

/// Whether a configuration block is empty or absent.
pub open spec fn is_absent(config_json: Seq<char>) -> bool {
    config_json.len() == 0 || config_json == "null"@
}

/// A call gives rise to at most one event that says how it ended: an error
/// event if and only if the result carries an error, a completed event
/// otherwise. It is queued if and only if somebody listens for it.
pub proof fn law_one_outcome_per_call(
    endpoints: Seq<EndpointView>,
    ctx: ContextView,
    result: Json,
    duration_ms: u64,
)
    ensures
        ({
            let event = outcome_event(ctx, result, duration_ms);
            let queued = outcome_notifications(endpoints, event);
            &&& event is ToolCallError <==> carries_error(result)
            &&& event is ToolCallCompleted <==> !carries_error(result)
            &&& queued.len() <= 1
            &&& queued.len() == 1 <==> exists|i: int|
                0 <= i < endpoints.len() && #[trigger] endpoints[i].matches(event.filter_token())
            &&& queued.len() == 1 ==> queued[0].event == event
        }),
{
    let token = outcome_event(ctx, result, duration_ms).filter_token();
    let pred = |e: EndpointView| e.matches(token);
    if exists|i: int| 0 <= i < endpoints.len() && #[trigger] endpoints[i].matches(token) {
        let i = choose|i: int| 0 <= i < endpoints.len() && #[trigger] endpoints[i].matches(token);
        endpoints.lemma_filter_contains(pred, i);
    }
    if listeners(endpoints, token).len() > 0 {
        let e = endpoints.filter(pred)[0];
        endpoints.lemma_filter_pred(pred, 0);
        endpoints.lemma_filter_contains_rev(pred, e);
        let i = choose|i: int| 0 <= i < endpoints.len() && endpoints[i] == e;
        assert(endpoints[i].matches(token));
    }
}

/// A notification reaches only configured endpoints whose filter selects its
/// event.
pub proof fn law_fan_out_only_to_listeners(
    endpoints: Seq<EndpointView>,
    ctx: ContextView,
    result: Json,
    duration_ms: u64,
    n: NotificationView,
    e: EndpointView,
)
    requires
        notifications(endpoints, ctx, result, duration_ms).contains(n),
        n.endpoints.contains(e),
    ensures
        endpoints.contains(e),
        e.matches(n.event.filter_token()),
{
    let slow = slow_notifications(endpoints, ctx, duration_ms);
    let event = outcome_event(ctx, result, duration_ms);
    let outcome = outcome_notifications(endpoints, event);
    let all = notifications(endpoints, ctx, result, duration_ms);
    let i = choose|i: int| 0 <= i < all.len() && all[i] == n;
    let j = choose|j: int| 0 <= j < n.endpoints.len() && n.endpoints[j] == e;
    if i < slow.len() {
        let pred = |e: EndpointView| finds_slow(e, duration_ms);
        assert(n == slow[i]);
        assert(e == endpoints.filter(pred)[i]);
        endpoints.lemma_filter_pred(pred, i);
        endpoints.lemma_filter_contains_rev(pred, e);
    } else {
        let pred = |e: EndpointView| e.matches(event.filter_token());
        assert(n == outcome[i - slow.len()]);
        endpoints.lemma_filter_pred(pred, j);
        endpoints.lemma_filter_contains_rev(pred, e);
    }
}

/// A configuration's endpoints keep their well-formedness all the way: the
/// configuration as applied is as well-formed as the one that was asked for, and
/// so is every endpoint of every notification.
pub proof fn law_notified_endpoints_are_well_formed(
    config: ConfigView,
    ctx: ContextView,
    result: Json,
    duration_ms: u64,
    n: NotificationView,
    e: EndpointView,
)
    requires
        config.wf(),
        notifications(config.capped().endpoints, ctx, result, duration_ms).contains(n),
        n.endpoints.contains(e),
    ensures
        config.capped().wf(),
        e.wf(),
{
    law_fan_out_only_to_listeners(config.capped().endpoints, ctx, result, duration_ms, n, e);
    assert forall|i: int| 0 <= i < config.capped().endpoints.len() implies (
    #[trigger] config.capped().endpoints[i]).wf() by {
        assert(config.endpoints[i].wf());
    }
    let i = choose|i: int| 0 <= i < config.endpoints.len() && config.endpoints[i] == e;
    assert(config.endpoints[i].wf());
}

/// Every endpoint that listens for how the call ended is told so.
pub proof fn law_every_listener_is_told(
    endpoints: Seq<EndpointView>,
    ctx: ContextView,
    result: Json,
    duration_ms: u64,
    e: EndpointView,
)
    requires
        endpoints.contains(e),
        e.matches(outcome_event(ctx, result, duration_ms).filter_token()),
    ensures
        ({
            let all = notifications(endpoints, ctx, result, duration_ms);
            &&& all.len() > 0
            &&& all.last().event == outcome_event(ctx, result, duration_ms)
            &&& all.last().endpoints.contains(e)
        }),
{
    let event = outcome_event(ctx, result, duration_ms);
    let pred = |e: EndpointView| e.matches(event.filter_token());
    let i = choose|i: int| 0 <= i < endpoints.len() && endpoints[i] == e;
    endpoints.lemma_filter_contains(pred, i);
    assert(listeners(endpoints, event.filter_token()).contains(e));
}

/// An endpoint gets a slow-response event of its own, with its own threshold,
/// if and only if the call took longer than that threshold and the endpoint
/// listens for such events.
pub proof fn law_slow_events(
    endpoints: Seq<EndpointView>,
    ctx: ContextView,
    duration_ms: u64,
    e: EndpointView,
)
    requires
        endpoints.contains(e),
    ensures
        finds_slow(e, duration_ms) ==> slow_notifications(endpoints, ctx, duration_ms).contains(
            slow_notification(e, ctx, duration_ms),
        ),
        !finds_slow(e, duration_ms) ==> forall|i: int|
            0 <= i < slow_notifications(endpoints, ctx, duration_ms).len()
                ==> !(#[trigger] slow_notifications(endpoints, ctx, duration_ms)[i]).endpoints.contains(
                e,
            ),
{
    let pred = |e: EndpointView| finds_slow(e, duration_ms);
    let slow = slow_notifications(endpoints, ctx, duration_ms);
    if finds_slow(e, duration_ms) {
        let k = choose|k: int| 0 <= k < endpoints.len() && endpoints[k] == e;
        endpoints.lemma_filter_contains(pred, k);
        let i = choose|i: int|
            0 <= i < endpoints.filter(pred).len() && endpoints.filter(pred)[i] == e;
        assert(slow[i] == slow_notification(e, ctx, duration_ms));
    } else {
        assert forall|i: int| 0 <= i < slow.len() implies !(#[trigger] slow[i]).endpoints.contains(
            e,
        ) by {
            endpoints.lemma_filter_pred(pred, i);
            assert(slow[i].endpoints =~= seq![endpoints.filter(pred)[i]]);
        }
    }
}

/// With no endpoint configured nothing is ever queued.
pub proof fn law_no_endpoints_no_events(ctx: ContextView, result: Json, duration_ms: u64)
    ensures
        notifications(Seq::empty(), ctx, result, duration_ms) == Seq::<NotificationView>::empty(),
{
    reveal(Seq::filter);
    assert(notifications(Seq::empty(), ctx, result, duration_ms)
        =~= Seq::<NotificationView>::empty());
}

/// An empty filter, and one that holds the token `all`, select every kind of
/// event.
pub proof fn law_catch_all_filter(e: EndpointView, event: EventView)
    requires
        e.events.len() == 0 || e.events.contains("all"@),
    ensures
        e.matches(event.filter_token()),
{
}

} // verus!
