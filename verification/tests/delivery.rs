use mcpg_plugin_integration_webhook::backoff::{backoff_ms, base_ms};
use mcpg_plugin_integration_webhook::target::{endpoint_target, loggable_host, loggable_of, UrlParts};
use mcpg_plugin_integration_webhook::{
    AttemptReply, BackgroundSender, CircuitBreakerConfig, CircuitState, DeliveryAction,
    DeliveryOutcome, DeliveryPhase, DeliverySignal, DeliveryStep, DropReason, EndpointConfig,
    EndpointTarget, Job, Method, PinnedClient, ResolvedAddress, WebhookPluginConfig,
};

const SECOND: u64 = 1_000_000_000;

fn config(max_retries: u32, circuit_breaker: CircuitBreakerConfig) -> WebhookPluginConfig {
    WebhookPluginConfig {
        endpoints: vec![],
        max_retries,
        retry_backoff_ms: 1,
        timeout_ms: 1000,
        buffer_size: 1,
        circuit_breaker,
    }
}

fn endpoint(url: &str, allow_private_backends: bool) -> EndpointConfig {
    EndpointConfig {
        url: url.to_owned(),
        events: vec![],
        slow_threshold_ms: None,
        headers: vec![],
        allow_private_backends,
    }
}

fn job(url: &str, allow_private_backends: bool) -> Job {
    Job {
        endpoint: EndpointConfig {
            headers: vec![("X-Team".to_owned(), "ops".to_owned())],
            ..endpoint(url, allow_private_backends)
        },
        payload: "{\"event\":\"x\"}".to_owned(),
    }
}

/// What every attempt at `job` must send.
fn assert_request(step: &DeliveryStep, url: &str) {
    let request = step.request.as_ref().unwrap();
    assert_eq!(request.method, Method::Post);
    assert_eq!(request.url, url);
    assert_eq!(
        request.headers,
        vec![
            ("content-type".to_owned(), "application/json".to_owned()),
            ("X-Team".to_owned(), "ops".to_owned()),
        ]
    );
    assert_eq!(request.body, "{\"event\":\"x\"}");
}

fn address(address: &str, private: bool) -> ResolvedAddress {
    ResolvedAddress {
        address: address.to_owned(),
        private,
    }
}

#[test]
fn circuit_opens_after_threshold_failures() {
    let cfg = config(
        0,
        CircuitBreakerConfig {
            consecutive_5xx_threshold: 3,
            open_duration_ms: 60,
            half_open_probe_count: 1,
        },
    );
    let mut s = BackgroundSender::new(cfg);
    let url = "https://example.test/hook";

    for i in 0..3 {
        assert!(s.breaker_allow(url, i));
        s.record_failure(url, i);
    }
    assert!(
        !s.breaker_allow(url, 3),
        "breaker should be Open after threshold"
    );
}

#[test]
fn circuit_half_open_returns_to_closed_on_success() {
    let cfg = config(
        0,
        CircuitBreakerConfig {
            consecutive_5xx_threshold: 1,
            open_duration_ms: 1,
            half_open_probe_count: 1,
        },
    );
    let mut s = BackgroundSender::new(cfg);
    let url = "https://example.test/hook";

    assert!(s.breaker_allow(url, SECOND));
    s.record_failure(url, SECOND);
    // Let the open window expire by a second.
    let later = 2 * SECOND + 1_000_000;
    // Next allow() should transition to HalfOpen and admit a probe.
    assert!(s.breaker_allow(url, later));
    assert_eq!(s.circuit(url).label(), "half_open");
    s.record_success(url);
    // Breaker should be closed again and admit traffic.
    assert!(s.breaker_allow(url, later));
    assert_eq!(s.circuit(url).label(), "closed");
}

#[test]
fn open_window_ends_on_time() {
    let mut s = BackgroundSender::new(config(
        0,
        CircuitBreakerConfig {
            consecutive_5xx_threshold: 1,
            open_duration_ms: 60,
            half_open_probe_count: 1,
        },
    ));
    let url = "https://example.test/hook";
    s.record_failure(url, 5);
    assert_eq!(s.circuit(url), CircuitState::Open { until: 60_000_005 });
    assert_eq!(s.circuit(url).label(), "open");
    assert!(!s.breaker_allow(url, 60_000_004));
    assert!(s.breaker_allow(url, 60_000_005));
    // A failed probe opens the breaker again at once.
    s.record_failure(url, 60_000_006);
    assert!(!s.breaker_allow(url, 60_000_007));
    assert!(s.breaker_allow(url, 120_000_006));
}

#[test]
fn half_open_admits_the_configured_number_of_probes() {
    for (count, admitted) in [(0, 1), (1, 1), (2, 2), (5, 5)] {
        let mut s = BackgroundSender::new(config(
            0,
            CircuitBreakerConfig {
                consecutive_5xx_threshold: 1,
                open_duration_ms: 1,
                half_open_probe_count: count,
            },
        ));
        let url = "https://example.test/hook";
        s.record_failure(url, 0);
        let passed = (0..10).filter(|_| s.breaker_allow(url, SECOND)).count();
        assert_eq!(passed, admitted);
    }
}

#[test]
fn zero_threshold_and_zero_window_count_as_one() {
    let mut s = BackgroundSender::new(config(
        0,
        CircuitBreakerConfig {
            consecutive_5xx_threshold: 0,
            open_duration_ms: 0,
            half_open_probe_count: 0,
        },
    ));
    s.record_failure("u", 7);
    assert_eq!(s.circuit("u"), CircuitState::Open { until: 1_000_007 });
}

#[test]
fn breakers_are_separate_and_success_resets() {
    let mut s = BackgroundSender::new(config(
        0,
        CircuitBreakerConfig {
            consecutive_5xx_threshold: 2,
            open_duration_ms: u64::MAX,
            half_open_probe_count: 1,
        },
    ));
    s.record_failure("a", u64::MAX);
    s.record_failure("a", u64::MAX);
    assert!(!s.breaker_allow("a", u64::MAX));
    assert!(s.breaker_allow("b", 0));
    s.record_failure("b", 0);
    assert_eq!(
        s.circuit("b"),
        CircuitState::Closed { consecutive_failures: 1 }
    );
    s.record_success("b");
    s.record_failure("b", 0);
    assert_eq!(
        s.circuit("b"),
        CircuitState::Closed { consecutive_failures: 1 }
    );
}

fn sender_for_pin_test() -> BackgroundSender {
    BackgroundSender::new(WebhookPluginConfig::default())
}

/// Runs the two decisions of a pinned client around a resolution to `found`.
fn build_pinned_client(
    s: &BackgroundSender,
    url: &str,
    found: Vec<ResolvedAddress>,
    allow_private_backends: bool,
) -> Option<PinnedClient> {
    let target = endpoint_target(url).ok()?;
    s.build_pinned_client(target, Some(found), allow_private_backends)
        .ok()
}

#[test]
fn build_pinned_client_blocks_loopback_by_default() {
    let s = sender_for_pin_test();
    let found = vec![address("127.0.0.1:9", true)];
    assert!(build_pinned_client(&s, "http://127.0.0.1:9/hook", found, false).is_none());
}

#[test]
fn build_pinned_client_blocks_link_local_metadata_by_default() {
    let s = sender_for_pin_test();
    let found = vec![address("169.254.169.254:80", true)];
    assert!(
        build_pinned_client(&s, "http://169.254.169.254/latest/meta-data", found, false).is_none()
    );
}

#[test]
fn build_pinned_client_opt_in_allows_loopback() {
    let s = sender_for_pin_test();
    let found = vec![address("127.0.0.1:9", true)];
    let client = build_pinned_client(&s, "http://127.0.0.1:9/hook", found, true);
    assert!(client.is_some());
    let client = client.unwrap();
    assert_eq!(client.host, "127.0.0.1");
    assert_eq!(client.address.address, "127.0.0.1:9");
    assert_eq!(client.timeout_ms, 5000);
    assert_eq!(client.max_idle_per_host, 5);
    assert!(!client.follow_redirects);
}

#[test]
fn build_pinned_client_rejects_unparseable_url() {
    let s = sender_for_pin_test();
    let found = vec![address("192.0.2.1:80", false)];
    assert!(build_pinned_client(&s, "not a url", found, false).is_none());
    assert_eq!(
        endpoint_target("not a url").err(),
        Some(DropReason::UrlUnparseable)
    );
}

#[test]
fn targets_of_urls() {
    for (url, host, port) in [
        ("http://127.0.0.1:9/hook", "127.0.0.1", 9),
        ("https://Hooks.Example.com/mcpg", "hooks.example.com", 443),
        ("http://user:pw@example.com", "example.com", 80),
        ("foo://example.com:1456", "example.com", 1456),
        ("http://[::1]/", "[::1]", 80),
    ] {
        let target = endpoint_target(url).unwrap();
        assert_eq!(target.host, host);
        assert_eq!(target.port, port);
    }
    assert_eq!(
        endpoint_target("data:text/plain,Stuff").err(),
        Some(DropReason::NoHost)
    );
    assert_eq!(
        endpoint_target("foo://example.com").err(),
        Some(DropReason::NoPort)
    );
}

#[test]
fn literal_ipv6_addresses_are_looked_up_bare() {
    for (url, lookup) in [
        ("http://[::1]:9/hook", "::1"),
        ("https://[2001:db8::1]/", "2001:db8::1"),
        ("http://127.0.0.1:9/hook", "127.0.0.1"),
        ("https://Hooks.Example.com/mcpg", "hooks.example.com"),
    ] {
        assert_eq!(endpoint_target(url).unwrap().lookup_host(), lookup);
    }
    for (host, lookup) in [("[]", ""), ("[", "["), ("", ""), ("[a", "[a"), ("a]", "a]"), ("[é]", "é")] {
        let target = EndpointTarget { host: host.to_owned(), port: 80 };
        assert_eq!(target.lookup_host(), lookup);
    }
}

#[test]
fn build_pinned_client_opt_in_allows_ipv6_loopback() {
    let s = sender_for_pin_test();
    let found = || vec![address("[::1]:9", true)];
    let client = build_pinned_client(&s, "http://[::1]:9/hook", found(), true).unwrap();
    assert_eq!(client.host, "[::1]");
    assert_eq!(client.address.address, "[::1]:9");
    assert!(build_pinned_client(&s, "http://[::1]:9/hook", found(), false).is_none());
}

#[test]
fn first_public_address_is_pinned() {
    let s = sender_for_pin_test();
    let found = || {
        vec![
            address("10.0.0.1:80", true),
            address("192.0.2.1:80", false),
            address("192.0.2.2:80", false),
        ]
    };
    let client = build_pinned_client(&s, "http://example.com", found(), false).unwrap();
    assert_eq!(client.address.address, "192.0.2.1:80");
    assert!(!client.address.private);
    let client = build_pinned_client(&s, "http://example.com", found(), true).unwrap();
    assert_eq!(client.address.address, "10.0.0.1:80");
}

#[test]
fn unresolved_hosts_are_dropped() {
    let s = sender_for_pin_test();
    let target = || endpoint_target("http://example.com").unwrap();
    for (resolved, allow, reason) in [
        (None, true, DropReason::ResolutionFailed),
        (Some(vec![]), true, DropReason::NoAddresses),
        (
            Some(vec![address("10.0.0.1:80", true)]),
            false,
            DropReason::PrivateOnly,
        ),
    ] {
        assert_eq!(
            s.build_pinned_client(target(), resolved, allow).err(),
            Some(reason)
        );
    }
}

/// Brings a delivery to its first request.
fn send_first(s: &mut BackgroundSender, ep: &Job, now: u64) -> DeliveryPhase {
    let step = s.deliver_with_retry(ep, DeliveryPhase::Start, DeliverySignal::Begin { now });
    assert_eq!(step.action, DeliveryAction::Resolve);
    assert!(step.request.is_none());
    let step = s.deliver_with_retry(
        ep,
        step.phase,
        DeliverySignal::Resolved {
            addresses: Some(vec![address("192.0.2.1:443", false)]),
        },
    );
    assert_eq!(step.action, DeliveryAction::BuildClient);
    let step = s.deliver_with_retry(ep, step.phase, DeliverySignal::ClientBuilt { built: true });
    assert_eq!(step.action, DeliveryAction::Send);
    assert_request(&step, &ep.endpoint.url);
    step.phase
}

fn reply(status: u16) -> AttemptReply {
    AttemptReply::Response {
        status,
        remote_blocked: false,
    }
}

fn stop(outcome: DeliveryOutcome) -> DeliveryAction {
    DeliveryAction::Stop { outcome }
}

#[test]
fn success_ends_delivery_and_closes_breaker() {
    let ep = job("https://example.test/hook", false);
    let mut s = BackgroundSender::new(config(3, CircuitBreakerConfig::default()));
    s.record_failure(&ep.endpoint.url, 0);
    for status in [200, 204, 299] {
        let phase = send_first(&mut s, &ep, 0);
        let step = s.deliver_with_retry(
            &ep,
            phase,
            DeliverySignal::Replied { reply: reply(status), now: 1, subsec_nanos: 0 },
        );
        assert_eq!(step.action, stop(DeliveryOutcome::Delivered));
        assert!(matches!(step.phase, DeliveryPhase::Finished));
        assert_eq!(step.published.map(|c| c.label()), Some("closed"));
        assert_eq!(
            s.circuit(&ep.endpoint.url),
            CircuitState::Closed { consecutive_failures: 0 }
        );
    }
}

#[test]
fn failing_delivery_is_retried_then_given_up() {
    let ep = job("https://example.test/hook", false);
    let mut s = BackgroundSender::new(WebhookPluginConfig {
        retry_backoff_ms: 1000,
        ..config(2, CircuitBreakerConfig::default())
    });
    let mut phase = send_first(&mut s, &ep, 0);
    let mut slept = vec![];
    let mut sends = 1;
    loop {
        let step = s.deliver_with_retry(
            &ep,
            phase,
            DeliverySignal::Replied { reply: AttemptReply::Failed, now: 9, subsec_nanos: 20 },
        );
        match step.action {
            DeliveryAction::Sleep { ms } => slept.push(ms),
            action => {
                assert_eq!(action, stop(DeliveryOutcome::Exhausted));
                break;
            }
        }
        let step = s.deliver_with_retry(&ep, step.phase, DeliverySignal::Rested);
        assert_eq!(step.action, DeliveryAction::Send);
        assert_request(&step, "https://example.test/hook");
        sends += 1;
        phase = step.phase;
    }
    assert_eq!(sends, 3);
    assert_eq!(slept, vec![1000, 2000]);
    assert_eq!(
        s.circuit(&ep.endpoint.url),
        CircuitState::Closed { consecutive_failures: 3 }
    );
}

#[test]
fn only_server_errors_count_against_the_breaker() {
    let ep = job("https://example.test/hook", false);
    for (status, counted) in [(404, 0), (301, 0), (199, 0), (499, 0), (500, 1), (599, 1), (600, 0)] {
        let mut s = BackgroundSender::new(config(0, CircuitBreakerConfig::default()));
        let phase = send_first(&mut s, &ep, 0);
        let step = s.deliver_with_retry(
            &ep,
            phase,
            DeliverySignal::Replied { reply: reply(status), now: 1, subsec_nanos: 0 },
        );
        assert_eq!(step.action, stop(DeliveryOutcome::Exhausted));
        assert_eq!(step.published.is_some(), counted == 1);
        assert_eq!(
            s.circuit(&ep.endpoint.url),
            CircuitState::Closed { consecutive_failures: counted }
        );
    }
}

#[test]
fn blocked_answer_ends_delivery() {
    let ep = job("https://example.test/hook", false);
    let mut s = BackgroundSender::new(config(3, CircuitBreakerConfig::default()));
    let phase = send_first(&mut s, &ep, 0);
    let blocked = AttemptReply::Response { status: 200, remote_blocked: true };
    let step = s.deliver_with_retry(
        &ep,
        phase,
        DeliverySignal::Replied { reply: blocked, now: 1, subsec_nanos: 0 },
    );
    assert_eq!(step.action, stop(DeliveryOutcome::RebindingBlocked));
    assert!(step.published.is_none());
}

#[test]
fn deliveries_that_send_nothing() {
    let dropped = |reason| stop(DeliveryOutcome::Dropped { reason });
    let mut s = BackgroundSender::new(config(
        3,
        CircuitBreakerConfig {
            consecutive_5xx_threshold: 1,
            open_duration_ms: 1000,
            half_open_probe_count: 1,
        },
    ));
    let bad = job("not a url", false);
    let step = s.deliver_with_retry(&bad, DeliveryPhase::Start, DeliverySignal::Begin { now: 0 });
    assert_eq!(step.action, dropped(DropReason::UrlUnparseable));

    let ep = job("https://example.test/hook", false);
    let step = s.deliver_with_retry(&ep, DeliveryPhase::Start, DeliverySignal::Begin { now: 0 });
    let step = s.deliver_with_retry(
        &ep,
        step.phase,
        DeliverySignal::Resolved { addresses: Some(vec![address("10.0.0.1:443", true)]) },
    );
    assert_eq!(step.action, dropped(DropReason::PrivateOnly));

    let step = s.deliver_with_retry(&ep, DeliveryPhase::Start, DeliverySignal::Begin { now: 0 });
    let step = s.deliver_with_retry(
        &ep,
        step.phase,
        DeliverySignal::Resolved { addresses: Some(vec![address("192.0.2.1:443", false)]) },
    );
    let step = s.deliver_with_retry(&ep, step.phase, DeliverySignal::ClientBuilt { built: false });
    assert_eq!(step.action, dropped(DropReason::ClientBuildFailed));

    s.record_failure(&ep.endpoint.url, 0);
    let step = s.deliver_with_retry(&ep, DeliveryPhase::Start, DeliverySignal::Begin { now: 1 });
    assert_eq!(step.action, stop(DeliveryOutcome::ShortCircuited));
    assert!(step.published.is_none());

    let step = s.deliver_with_retry(
        &ep,
        DeliveryPhase::Start,
        DeliverySignal::Begin { now: SECOND },
    );
    assert_eq!(step.action, DeliveryAction::Resolve);
    assert_eq!(step.published.map(|c| c.label()), Some("half_open"));
}

#[test]
fn stray_signal_changes_nothing() {
    let ep = job("https://example.test/hook", false);
    let mut s = BackgroundSender::new(config(3, CircuitBreakerConfig::default()));
    let step = s.deliver_with_retry(&ep, DeliveryPhase::Start, DeliverySignal::Rested);
    assert_eq!(step.action, DeliveryAction::Wait);
    assert!(matches!(step.phase, DeliveryPhase::Start));
    let step = s.deliver_with_retry(
        &ep,
        DeliveryPhase::Finished,
        DeliverySignal::Begin { now: 0 },
    );
    assert_eq!(step.action, DeliveryAction::Wait);
    assert!(matches!(step.phase, DeliveryPhase::Finished));
}

#[test]
fn backoff_doubles_with_jitter() {
    assert_eq!(base_ms(1000, 1), 1000);
    assert_eq!(base_ms(1000, 2), 2000);
    assert_eq!(base_ms(1000, 10), 512_000);
    assert_eq!(base_ms(0, u32::MAX), 0);
    assert_eq!(base_ms(1, 64), 1 << 63);
    assert_eq!(base_ms(1, 65), u64::MAX);
    assert_eq!(base_ms(u64::MAX, u32::MAX), u64::MAX);

    assert_eq!(backoff_ms(1000, 1, 0), 800);
    assert_eq!(backoff_ms(1000, 1, 20), 1000);
    assert_eq!(backoff_ms(1000, 1, 39), 1190);
    assert_eq!(backoff_ms(1000, 1, 40), 800);
    assert_eq!(backoff_ms(1000, 3, 999_999_999), 4760);
    assert_eq!(backoff_ms(7, 1, 0), 6);
    assert_eq!(backoff_ms(4, 1, 0), 4);
}

#[test]
fn pause_is_never_empty_nor_minutes_long() {
    assert_eq!(backoff_ms(0, 1, 0), 1);
    assert_eq!(backoff_ms(0, 5, 39), 1);
    assert_eq!(backoff_ms(100_000, 1, 20), 100_000);
    assert_eq!(backoff_ms(100_000, 1, 39), 119_000);
    assert_eq!(backoff_ms(110_000, 1, 39), 119_999);
    assert_eq!(backoff_ms(140_000, 1, 0), 112_000);
    assert_eq!(backoff_ms(1000, 10, 0), 119_999);
    assert_eq!(backoff_ms(u64::MAX, 10, 0), 119_999);
}

#[test]
fn failing_delivery_opens_the_breaker_and_keeps_its_pin() {
    let ep = job("https://example.test/hook", false);
    let mut s = BackgroundSender::new(config(
        2,
        CircuitBreakerConfig {
            consecutive_5xx_threshold: 2,
            open_duration_ms: 1,
            half_open_probe_count: 1,
        },
    ));
    let mut phase = send_first(&mut s, &ep, 0);
    for (now, label) in [(10, "closed"), (20, "open")] {
        let step = s.deliver_with_retry(
            &ep,
            phase,
            DeliverySignal::Replied { reply: reply(503), now, subsec_nanos: 0 },
        );
        assert_eq!(step.published.map(|c| c.label()), Some(label));
        let step = s.deliver_with_retry(&ep, step.phase, DeliverySignal::Rested);
        match &step.phase {
            DeliveryPhase::Sending { client, .. } => {
                assert_eq!(client.address.address, "192.0.2.1:443");
                assert_eq!(client.host, "example.test");
            }
            other => panic!("{:?}", other),
        }
        phase = step.phase;
    }
    assert_eq!(s.circuit(&ep.endpoint.url), CircuitState::Open { until: 1_000_020 });
    let step = s.deliver_with_retry(
        &ep,
        phase,
        DeliverySignal::Replied { reply: reply(503), now: 30, subsec_nanos: 0 },
    );
    assert_eq!(step.action, stop(DeliveryOutcome::Exhausted));
    assert_eq!(s.circuit(&ep.endpoint.url), CircuitState::Open { until: 1_000_030 });
    let step = s.deliver_with_retry(
        &ep,
        DeliveryPhase::Start,
        DeliverySignal::Begin { now: 1_000_029 },
    );
    assert_eq!(step.action, stop(DeliveryOutcome::ShortCircuited));
}

#[test]
fn one_series_is_current() {
    for (state, current) in [
        (CircuitState::Closed { consecutive_failures: 2 }, "closed"),
        (CircuitState::Open { until: 7 }, "open"),
        (CircuitState::HalfOpen { probes_remaining: 0 }, "half_open"),
    ] {
        assert_eq!(state.label(), current);
        let expected: Vec<(&'static str, bool)> = ["closed", "open", "half_open"]
            .into_iter()
            .map(|name| (name, name == current))
            .collect();
        assert_eq!(state.series(), expected);
    }
}

#[test]
fn outcomes_that_count_as_blocked() {
    let dropped = |reason| DeliveryOutcome::Dropped { reason };
    for outcome in [
        DeliveryOutcome::RebindingBlocked,
        dropped(DropReason::ResolutionFailed),
        dropped(DropReason::PrivateOnly),
    ] {
        assert!(outcome.counts_as_blocked());
    }
    for outcome in [
        DeliveryOutcome::ShortCircuited,
        DeliveryOutcome::Delivered,
        DeliveryOutcome::Exhausted,
        dropped(DropReason::UrlUnparseable),
        dropped(DropReason::NoHost),
        dropped(DropReason::NoPort),
        dropped(DropReason::NoAddresses),
        dropped(DropReason::ClientBuildFailed),
    ] {
        assert!(!outcome.counts_as_blocked());
    }
}

#[test]
fn only_a_url_that_parses_is_named_in_logs() {
    assert_eq!(loggable_host("http://user:pw@example.com").as_deref(), Some("example.com"));
    assert_eq!(loggable_host("foo://example.com").as_deref(), Some("example.com"));
    assert_eq!(loggable_host("data:text/plain,Stuff").as_deref(), Some(""));
    assert_eq!(loggable_host("http://user:pw@"), None);
    let hostless = UrlParts { host: None, port: Some(80) };
    assert_eq!(loggable_of(Some(hostless)).as_deref(), Some(""));
    assert_eq!(loggable_host("not a url"), None);
    assert_eq!(loggable_of(None), None);
}
