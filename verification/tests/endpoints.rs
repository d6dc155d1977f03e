use mcpg_plugin_integration_webhook::config::{
    default_buffer_size, default_cb_open_ms, default_cb_probes, default_cb_threshold,
    default_max_retries, default_retry_backoff_ms, default_timeout_ms,
};
use mcpg_plugin_integration_webhook::delivery::{request_for, request_headers};
use mcpg_plugin_integration_webhook::{
    CircuitBreakerConfig, EndpointConfig, Job, Method, WebhookPluginConfig,
};

#[test]
fn endpoint_matches_all() {
    let ep = EndpointConfig {
        url: "http://localhost".to_owned(),
        events: vec!["all".to_owned()],
        slow_threshold_ms: None,
        headers: Default::default(),
        allow_private_backends: false,
    };
    assert!(ep.matches_event("error"));
    assert!(ep.matches_event("completed"));
}

#[test]
fn endpoint_matches_specific() {
    let ep = EndpointConfig {
        url: "http://localhost".to_owned(),
        events: vec!["error".to_owned()],
        slow_threshold_ms: None,
        headers: Default::default(),
        allow_private_backends: false,
    };
    assert!(ep.matches_event("error"));
    assert!(!ep.matches_event("completed"));
}

#[test]
fn endpoint_empty_events_matches_all() {
    let ep = EndpointConfig {
        url: "http://localhost".to_owned(),
        events: vec![],
        slow_threshold_ms: None,
        headers: Default::default(),
        allow_private_backends: false,
    };
    assert!(ep.matches_event("anything"));
}

#[test]
fn filter_looks_at_every_token() {
    let ep = EndpointConfig {
        url: "http://localhost".to_owned(),
        events: vec!["slow_response".to_owned(), "error".to_owned()],
        slow_threshold_ms: None,
        headers: Default::default(),
        allow_private_backends: false,
    };
    assert!(ep.matches_event("slow_response"));
    assert!(ep.matches_event("error"));
    assert!(!ep.matches_event("err"));
    assert!(!ep.matches_event("errors"));
    assert!(!ep.matches_event("all"));
}

#[test]
fn defaults_are_the_documented_ones() {
    assert_eq!(default_cb_threshold(), 5);
    assert_eq!(default_cb_open_ms(), 30000);
    assert_eq!(default_cb_probes(), 1);
    assert_eq!(default_max_retries(), 3);
    assert_eq!(default_retry_backoff_ms(), 1000);
    assert_eq!(default_timeout_ms(), 5000);
    assert_eq!(default_buffer_size(), 1024);
    let cb = CircuitBreakerConfig::default();
    assert_eq!(cb.consecutive_5xx_threshold, 5);
    assert_eq!(cb.open_duration_ms, 30000);
    assert_eq!(cb.half_open_probe_count, 1);
    let config = WebhookPluginConfig::default();
    assert!(config.endpoints.is_empty());
    assert_eq!(config.max_retries, 3);
    assert_eq!(config.retry_backoff_ms, 1000);
    assert_eq!(config.timeout_ms, 5000);
    assert_eq!(config.buffer_size, 1024);
    assert_eq!(config.circuit_breaker.consecutive_5xx_threshold, 5);
}

#[test]
fn cloned_config_holds_the_same() {
    let config = WebhookPluginConfig {
        endpoints: vec![EndpointConfig {
            url: "https://hooks.example.com/mcpg".to_owned(),
            events: vec!["error".to_owned(), "slow_response".to_owned()],
            slow_threshold_ms: Some(2000),
            headers: vec![("Authorization".to_owned(), "Bearer x".to_owned())],
            allow_private_backends: true,
        }],
        max_retries: 7,
        retry_backoff_ms: 8,
        timeout_ms: 9,
        buffer_size: 10,
        circuit_breaker: CircuitBreakerConfig::default(),
    };
    let copy = config.clone();
    assert_eq!(copy.endpoints.len(), 1);
    let ep = &copy.endpoints[0];
    assert_eq!(ep.url, "https://hooks.example.com/mcpg");
    assert_eq!(ep.events, vec!["error", "slow_response"]);
    assert_eq!(ep.slow_threshold_ms, Some(2000));
    assert_eq!(
        ep.headers,
        vec![("Authorization".to_owned(), "Bearer x".to_owned())]
    );
    assert!(ep.allow_private_backends);
    assert_eq!(copy.max_retries, 7);
    assert_eq!(copy.retry_backoff_ms, 8);
    assert_eq!(copy.timeout_ms, 9);
    assert_eq!(copy.buffer_size, 10);
}

#[test]
fn request_carries_content_type_and_own_headers() {
    let ep = EndpointConfig {
        url: "http://localhost".to_owned(),
        events: vec![],
        slow_threshold_ms: None,
        headers: vec![
            ("Authorization".to_owned(), "Bearer x".to_owned()),
            ("X-Team".to_owned(), "ops".to_owned()),
        ],
        allow_private_backends: false,
    };
    assert_eq!(
        request_headers(&ep),
        vec![
            ("content-type".to_owned(), "application/json".to_owned()),
            ("Authorization".to_owned(), "Bearer x".to_owned()),
            ("X-Team".to_owned(), "ops".to_owned()),
        ]
    );
}

#[test]
fn request_posts_the_payload_to_the_url() {
    let job = Job {
        endpoint: EndpointConfig {
            url: "https://user:pw@Hooks.Example.com/mcpg?x=1".to_owned(),
            events: vec!["error".to_owned()],
            slow_threshold_ms: None,
            headers: vec![("Authorization".to_owned(), "Bearer x".to_owned())],
            allow_private_backends: false,
        },
        payload: "{\"event\":\"é\"}".to_owned(),
    };
    let request = request_for(&job);
    assert_eq!(request.method, Method::Post);
    assert_eq!(request.url, "https://user:pw@Hooks.Example.com/mcpg?x=1");
    assert_eq!(
        request.headers,
        vec![
            ("content-type".to_owned(), "application/json".to_owned()),
            ("Authorization".to_owned(), "Bearer x".to_owned()),
        ]
    );
    assert_eq!(request.body, "{\"event\":\"é\"}");
}
