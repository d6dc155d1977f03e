use mcpg_plugin_integration_webhook::queue::Received;
use mcpg_plugin_integration_webhook::{
    BackgroundSender, CircuitBreakerConfig, EndpointConfig, EventQueue, GateDecision, Json,
    Notification, PluginClass, PluginContext, PluginIdentity, RunStep, WebhookEvent,
    WebhookPlugin, WebhookPluginConfig, PLUGIN_ID, PLUGIN_VERSION, SHUTDOWN_DRAIN_BUDGET_MS, WEBHOOK_RETRY_HARD_CAP,
};

fn test_ctx() -> PluginContext {
    PluginContext {
        request_id: "req-001".to_owned(),
        tool_name: "test_tool".to_owned(),
        identity: PluginIdentity {
            kind: "verified".to_owned(),
            subject_id: Some("user@example.com".to_owned()),
        },
    }
}

fn plain_config() -> WebhookPluginConfig {
    WebhookPluginConfig {
        endpoints: vec![],
        max_retries: 0,
        retry_backoff_ms: 100,
        timeout_ms: 1000,
        buffer_size: 16,
        circuit_breaker: CircuitBreakerConfig::default(),
    }
}

fn endpoint(url: &str, events: &[&str], slow_threshold_ms: Option<u64>) -> EndpointConfig {
    EndpointConfig {
        url: url.to_owned(),
        events: events.iter().map(|e| (*e).to_owned()).collect(),
        slow_threshold_ms,
        headers: vec![],
        allow_private_backends: false,
    }
}

fn object(members: Vec<(&str, Json)>) -> Json {
    Json::Object(
        members
            .into_iter()
            .map(|(k, v)| (k.to_owned(), v))
            .collect(),
    )
}

fn text_block(text: &str) -> Json {
    object(vec![
        ("type", Json::Text("text".to_owned())),
        ("text", Json::Text(text.to_owned())),
    ])
}

fn drain(queue: &mut EventQueue) -> Vec<Notification> {
    let mut all = vec![];
    while let Received::Item(n) = queue.try_recv() {
        all.push(n);
    }
    all
}

fn urls(n: &Notification) -> Vec<&str> {
    n.endpoints.iter().map(|e| e.url.as_str()).collect()
}

#[test]
fn always_returns_allow() {
    let plugin = WebhookPlugin::new(plain_config());
    let ctx = test_ctx();
    let mut queue = plugin.event_queue();
    let result = object(vec![("content", Json::Array(vec![text_block("ok")]))]);
    let decision = plugin.evaluate_post(&ctx, &result, 100, &mut queue);
    assert!(matches!(decision, GateDecision::Allow { .. }));
    assert_eq!(plugin.evaluate_pre(&ctx), GateDecision::Allow);
    assert!(drain(&mut queue).is_empty());
}

#[test]
fn manifest_is_correct() {
    let plugin = WebhookPlugin::new(plain_config());
    let m = plugin.manifest();
    assert_eq!(m.id, "dev.mcpg.webhook");
    assert_eq!(m.plugin_class, PluginClass::ToolGate);
    assert_eq!(m.name, "Webhook Notifications");
    assert_eq!(m.protocol_version, "1.0");
    assert_eq!(m.version, "0.1.0");
    assert_eq!(m.id, PLUGIN_ID);
    assert_eq!(m.version, PLUGIN_VERSION);
    assert_eq!(m.module_path_prefix, "mcpg_plugin_integration_webhook");
    assert!(m.required_capabilities.is_empty());
}

#[test]
fn empty_config_yields_defaults() {
    let defaults = WebhookPluginConfig::default();
    let blocks = [
        ("{}", Ok(WebhookPluginConfig::default())),
        ("", Err("EOF while parsing a value".to_owned())),
        ("null", Err("invalid type: null".to_owned())),
    ];
    for (text, parsed) in blocks {
        let plugin = WebhookPlugin::from_config_json(text, parsed).unwrap_or_else(|e| panic!("{}", e));
        assert!(plugin.config().endpoints.is_empty());
        assert_eq!(plugin.config().max_retries, defaults.max_retries);
        assert_eq!(plugin.config().retry_backoff_ms, defaults.retry_backoff_ms);
        assert_eq!(plugin.config().timeout_ms, defaults.timeout_ms);
        assert_eq!(plugin.config().buffer_size, defaults.buffer_size);
    }
}

#[test]
#[should_panic(expected = "failing closed")]
fn malformed_config_fails_closed() {
    let parsed = match serde_json::from_str::<serde_json::Value>("not json") {
        Ok(_) => Ok(WebhookPluginConfig::default()),
        Err(e) => Err(e.to_string()),
    };
    let _ = WebhookPlugin::from_config_json("not json", parsed).unwrap_or_else(|e| panic!("{}", e));
}

#[test]
fn refused_config_says_why() {
    let refused = WebhookPlugin::from_config_json("[]", Err("invalid length 0".to_owned()));
    assert_eq!(
        refused.err(),
        Some("webhook config is malformed, failing closed: invalid length 0".to_owned())
    );
}

#[test]
fn retries_are_capped() {
    assert_eq!(WEBHOOK_RETRY_HARD_CAP, 10);
    for (asked, applied) in [(0, 0), (3, 3), (10, 10), (11, 10), (u32::MAX, 10)] {
        let config = WebhookPluginConfig {
            max_retries: asked,
            ..plain_config()
        };
        assert_eq!(WebhookPlugin::new(config).config().max_retries, applied);
    }
}

#[test]
fn queue_holds_at_least_one() {
    let config = WebhookPluginConfig {
        endpoints: vec![endpoint("http://a", &[], None)],
        buffer_size: 0,
        ..plain_config()
    };
    let plugin = WebhookPlugin::new(config);
    let mut queue = plugin.event_queue();
    plugin.evaluate_post(&test_ctx(), &Json::Null, 1, &mut queue);
    assert_eq!(queue.dropped(), 0);
    plugin.evaluate_post(&test_ctx(), &Json::Null, 2, &mut queue);
    plugin.evaluate_post(&test_ctx(), &Json::Null, 3, &mut queue);
    assert_eq!(queue.dropped(), 2);
    let queued = drain(&mut queue);
    assert_eq!(queued.len(), 1);
    assert!(matches!(
        queued[0].event,
        WebhookEvent::ToolCallCompleted { duration_ms: 1, .. }
    ));
}

#[test]
fn completed_call_tells_its_listeners() {
    let config = WebhookPluginConfig {
        endpoints: vec![
            endpoint("http://a", &["completed"], None),
            endpoint("http://b", &["error"], None),
            endpoint("http://c", &["all"], None),
            endpoint("http://d", &[], None),
            endpoint("http://e", &["slow_response"], None),
        ],
        ..plain_config()
    };
    let plugin = WebhookPlugin::new(config);
    let mut queue = plugin.event_queue();
    plugin.evaluate_post(&test_ctx(), &object(vec![]), 42, &mut queue);
    let queued = drain(&mut queue);
    assert_eq!(queued.len(), 1);
    assert_eq!(urls(&queued[0]), vec!["http://a", "http://c", "http://d"]);
    match &queued[0].event {
        WebhookEvent::ToolCallCompleted {
            tool_name,
            request_id,
            duration_ms,
            identity_kind,
            subject_id,
        } => {
            assert_eq!(tool_name, "test_tool");
            assert_eq!(request_id, "req-001");
            assert_eq!(*duration_ms, 42);
            assert_eq!(identity_kind, "verified");
            assert_eq!(subject_id.as_deref(), Some("user@example.com"));
        }
        other => panic!("{:?}", other),
    }
}

#[test]
fn failed_call_tells_its_listeners() {
    let config = WebhookPluginConfig {
        endpoints: vec![
            endpoint("http://a", &["completed"], None),
            endpoint("http://b", &["error"], None),
        ],
        ..plain_config()
    };
    let plugin = WebhookPlugin::new(config);
    let mut queue = plugin.event_queue();
    let result = object(vec![
        ("isError", Json::Bool(true)),
        ("content", Json::Array(vec![text_block("boom"), text_block("later")])),
    ]);
    plugin.evaluate_post(&test_ctx(), &result, 42, &mut queue);
    let queued = drain(&mut queue);
    assert_eq!(queued.len(), 1);
    assert_eq!(urls(&queued[0]), vec!["http://b"]);
    match &queued[0].event {
        WebhookEvent::ToolCallError {
            tool_name,
            request_id,
            error_message,
            identity_kind,
        } => {
            assert_eq!(tool_name, "test_tool");
            assert_eq!(request_id, "req-001");
            assert_eq!(error_message, "boom");
            assert_eq!(identity_kind, "verified");
        }
        other => panic!("{:?}", other),
    }
}

fn message_for(content: Option<Json>) -> String {
    let config = WebhookPluginConfig {
        endpoints: vec![endpoint("http://a", &[], None)],
        ..plain_config()
    };
    let plugin = WebhookPlugin::new(config);
    let mut queue = plugin.event_queue();
    let mut members = vec![("isError", Json::Bool(true))];
    if let Some(content) = content {
        members.push(("content", content));
    }
    plugin.evaluate_post(&test_ctx(), &object(members), 1, &mut queue);
    match drain(&mut queue).pop() {
        Some(Notification {
            event: WebhookEvent::ToolCallError { error_message, .. },
            ..
        }) => error_message,
        other => panic!("{:?}", other),
    }
}

#[test]
fn error_message_is_the_first_text_block() {
    let image = object(vec![("type", Json::Text("image".to_owned()))]);
    let odd = object(vec![("text", Json::Number("7".to_owned()))]);
    assert_eq!(
        message_for(Some(Json::Array(vec![image, odd, text_block("boom")]))),
        "boom"
    );
    assert_eq!(message_for(None), "unknown error");
    assert_eq!(message_for(Some(Json::Array(vec![]))), "unknown error");
    assert_eq!(
        message_for(Some(Json::Array(vec![Json::Null]))),
        "unknown error"
    );
    assert_eq!(
        message_for(Some(Json::Text("boom".to_owned()))),
        "unknown error"
    );
}

#[test]
fn only_a_true_flag_is_an_error() {
    let config = WebhookPluginConfig {
        endpoints: vec![endpoint("http://a", &["error"], None)],
        ..plain_config()
    };
    let plugin = WebhookPlugin::new(config);
    let mut queue = plugin.event_queue();
    for flag in [
        Json::Bool(false),
        Json::Null,
        Json::Text("true".to_owned()),
        Json::Number("1".to_owned()),
        Json::Array(vec![Json::Bool(true)]),
    ] {
        plugin.evaluate_post(&test_ctx(), &object(vec![("isError", flag)]), 1, &mut queue);
    }
    plugin.evaluate_post(&test_ctx(), &Json::Bool(true), 1, &mut queue);
    assert!(drain(&mut queue).is_empty());
}

#[test]
fn slow_call_tells_each_endpoint_by_its_own_threshold() {
    let config = WebhookPluginConfig {
        endpoints: vec![
            endpoint("http://a", &["slow_response"], Some(100)),
            endpoint("http://b", &["slow_response"], Some(99)),
            endpoint("http://c", &["error"], Some(1)),
            endpoint("http://d", &[], None),
            endpoint("http://e", &["all"], Some(0)),
        ],
        ..plain_config()
    };
    let plugin = WebhookPlugin::new(config);
    let mut queue = plugin.event_queue();
    plugin.evaluate_post(&test_ctx(), &Json::Null, 100, &mut queue);
    let queued = drain(&mut queue);
    assert_eq!(queued.len(), 3);
    assert_eq!(urls(&queued[0]), vec!["http://b"]);
    assert!(matches!(
        &queued[0].event,
        WebhookEvent::SlowResponse { duration_ms: 100, threshold_ms: 99, .. }
    ));
    assert_eq!(urls(&queued[1]), vec!["http://e"]);
    assert!(matches!(
        &queued[1].event,
        WebhookEvent::SlowResponse { duration_ms: 100, threshold_ms: 0, .. }
    ));
    assert_eq!(urls(&queued[2]), vec!["http://d", "http://e"]);
    assert!(matches!(
        &queued[2].event,
        WebhookEvent::ToolCallCompleted { .. }
    ));
}

#[test]
fn sender_works_off_the_queue_in_order() {
    let config = WebhookPluginConfig {
        endpoints: vec![
            endpoint("http://a", &[], None),
            endpoint("http://b", &[], None),
        ],
        ..plain_config()
    };
    let plugin = WebhookPlugin::new(config);
    let mut queue = plugin.event_queue();
    let mut sender: BackgroundSender = plugin.background_sender();
    assert!(matches!(sender.run(&mut queue), RunStep::Wait));
    plugin.evaluate_post(&test_ctx(), &Json::Null, 1, &mut queue);
    plugin.evaluate_post(&test_ctx(), &Json::Null, 2, &mut queue);
    queue.close();
    let mut seen = vec![];
    loop {
        match sender.run(&mut queue) {
            RunStep::Deliver(job) => seen.push((job.endpoint.url, job.payload)),
            RunStep::Wait => panic!("the queue is closed"),
            RunStep::Finished => break,
        }
    }
    let payload = |ms: u64| {
        format!(
            "{{\"event\":\"tool_call_completed\",\"tool_name\":\"test_tool\",\"request_id\":\"req-001\",\"duration_ms\":{},\"identity_kind\":\"verified\",\"subject_id\":\"user@example.com\"}}",
            ms
        )
    };
    assert_eq!(
        seen,
        vec![
            ("http://a".to_owned(), payload(1)),
            ("http://b".to_owned(), payload(1)),
            ("http://a".to_owned(), payload(2)),
            ("http://b".to_owned(), payload(2)),
        ]
    );
}

#[test]
fn closed_queue_takes_nothing_more() {
    let config = WebhookPluginConfig {
        endpoints: vec![endpoint("http://a", &[], None)],
        ..plain_config()
    };
    let plugin = WebhookPlugin::new(config);
    let mut queue = plugin.event_queue();
    queue.close();
    plugin.evaluate_post(&test_ctx(), &Json::Null, 1, &mut queue);
    assert_eq!(queue.dropped(), 1);
    assert!(matches!(queue.try_recv(), Received::Disconnected));
}

#[test]
fn shutdown_waits_one_second() {
    assert_eq!(SHUTDOWN_DRAIN_BUDGET_MS, 1000);
}

#[test]
fn members_are_found_wherever_they_stand() {
    let value = object(vec![
        ("a", Json::Bool(true)),
        ("b", Json::Text("t".to_owned())),
        ("c", Json::Null),
    ]);
    assert_eq!(value.get("a").and_then(|v| v.as_bool()), Some(true));
    assert_eq!(value.get("b").and_then(|v| v.as_str()), Some("t"));
    assert!(matches!(value.get("c"), Some(Json::Null)));
    assert!(value.get("d").is_none());
    assert!(Json::Null.get("a").is_none());
}
