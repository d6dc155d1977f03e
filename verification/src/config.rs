//! What an operator configures: the endpoints, the retry and timeout tunables,
//! and the circuit breaker.

use vstd::prelude::*;

verus! {

/// Hard cap on retry attempts: a misconfigured webhook does not retry hundreds
/// of times against a flaky receiver.
pub const WEBHOOK_RETRY_HARD_CAP: u32 = 10;

/// Consecutive failures before a breaker opens.
pub fn default_cb_threshold() -> (n: u32)
    ensures
        n == 5,
{
    5
}

/// How long a breaker stays open, in milliseconds.
pub fn default_cb_open_ms() -> (n: u64)
    ensures
        n == 30_000,
{
    30_000
}

/// Deliveries admitted while a breaker is half-open.
pub fn default_cb_probes() -> (n: u32)
    ensures
        n == 1,
{
    1
}

/// Retries after the first failed send.
pub fn default_max_retries() -> (n: u32)
    ensures
        n == 3,
{
    3
}

/// Pause before the first retry, in milliseconds.
pub fn default_retry_backoff_ms() -> (n: u64)
    ensures
        n == 1000,
{
    1000
}

/// Timeout of one request, in milliseconds.
pub fn default_timeout_ms() -> (n: u64)
    ensures
        n == 5000,
{
    5000
}

/// Depth of the event queue.
pub fn default_buffer_size() -> (n: usize)
    ensures
        n == 1024,
{
    1024
}

/// Per-endpoint circuit breaker. After `consecutive_5xx_threshold` failures it
/// trips open for `open_duration_ms`; then `half_open_probe_count` deliveries
/// are let through as probes. A success closes it, a failure opens it again.
#[derive(Debug, Clone, Copy)]
pub struct CircuitBreakerConfig {
    pub consecutive_5xx_threshold: u32,
    pub open_duration_ms: u64,
    pub half_open_probe_count: u32,
}

impl CircuitBreakerConfig {
    /// The breaker settings of a configuration that names none.
    pub open spec fn defaults() -> CircuitBreakerConfig {
        CircuitBreakerConfig {
            consecutive_5xx_threshold: 5,
            open_duration_ms: 30_000,
            half_open_probe_count: 1,
        }
    }
}

impl Default for CircuitBreakerConfig {
    fn default() -> (r: Self)
        ensures
            r == CircuitBreakerConfig::defaults(),
    {
        CircuitBreakerConfig {
            consecutive_5xx_threshold: default_cb_threshold(),
            open_duration_ms: default_cb_open_ms(),
            half_open_probe_count: default_cb_probes(),
        }
    }
}

/// One webhook receiver.
#[derive(Debug)]
pub struct EndpointConfig {
    pub url: String,
    /// Event filter: the tokens this endpoint listens for. Empty listens to all.
    pub events: Vec<String>,
    /// A call that takes longer than this gives rise to a slow-response event.
    pub slow_threshold_ms: Option<u64>,
    /// Headers added to every request, by name and value, in the order of names.
    pub headers: Vec<(String, String)>,
    /// Opt-in: allow delivery to private, loopback and link-local addresses.
    pub allow_private_backends: bool,
}

/// What an [`EndpointConfig`] holds, as mathematical values.
#[verifier::ext_equal]
pub struct EndpointView {
    pub url: Seq<char>,
    pub events: Seq<Seq<char>>,
    pub slow_threshold_ms: Option<u64>,
    pub headers: Seq<(Seq<char>, Seq<char>)>,
    pub allow_private_backends: bool,
}

/// Whether `a` stands before `b` in the order of texts: by the code points of
/// the first character in which they differ, and a text after its prefixes.
pub open spec fn precedes(a: Seq<char>, b: Seq<char>) -> bool
    decreases a.len(),
{
    if b.len() == 0 {
        false
    } else if a.len() == 0 {
        true
    } else if a[0] == b[0] {
        precedes(a.drop_first(), b.drop_first())
    } else {
        (a[0] as u32) < (b[0] as u32)
    }
}

/// These headers are in ascending order of their names.
pub open spec fn ascending_names(headers: Seq<(Seq<char>, Seq<char>)>) -> bool {
    forall|i: int, j: int|
        0 <= i < j < headers.len() ==> precedes(
            (#[trigger] headers[i]).0,
            (#[trigger] headers[j]).0,
        )
}

/// No text stands before itself, and of two texts at most one stands before the
/// other.
pub proof fn lemma_precedes_is_strict(a: Seq<char>, b: Seq<char>)
    ensures
        precedes(a, b) ==> a != b && !precedes(b, a),
    decreases a.len(),
{
    if a.len() > 0 && b.len() > 0 && a[0] == b[0] {
        lemma_precedes_is_strict(a.drop_first(), b.drop_first());
    }
}

impl EndpointView {
    /// What holds of every endpoint that was read from a configuration: its
    /// headers are a sorted map, so that the names ascend and none occurs twice.
    pub open spec fn wf(self) -> bool {
        ascending_names(self.headers)
    }

    /// Whether the endpoint listens for `event`: its filter is empty, holds the
    /// token `all`, or holds the event's own token.
    pub open spec fn matches(self, event: Seq<char>) -> bool {
        self.events.len() == 0 || self.events.contains("all"@) || self.events.contains(event)
    }
}

pub open spec fn texts(s: Seq<String>) -> Seq<Seq<char>> {
    s.map_values(|e: String| e@)
}

pub open spec fn text_pairs(s: Seq<(String, String)>) -> Seq<(Seq<char>, Seq<char>)> {
    s.map_values(|h: (String, String)| (h.0@, h.1@))
}

impl View for EndpointConfig {
    type V = EndpointView;

    open spec fn view(&self) -> EndpointView {
        EndpointView {
            url: self.url@,
            events: texts(self.events@),
            slow_threshold_ms: self.slow_threshold_ms,
            headers: text_pairs(self.headers@),
            allow_private_backends: self.allow_private_backends,
        }
    }
}

fn clone_texts(s: &Vec<String>) -> (r: Vec<String>)
    ensures
        texts(r@) == texts(s@),
{
    let mut r: Vec<String> = Vec::new();
    for i in 0..s.len()
        invariant
            r@.len() == i,
            forall|j: int| 0 <= j < i ==> #[trigger] r@[j]@ == s@[j]@,
    {
        r.push(s[i].clone());
    }
    assert(texts(r@) =~= texts(s@));
    r
}

pub(crate) fn clone_text_pairs(s: &Vec<(String, String)>) -> (r: Vec<(String, String)>)
    ensures
        text_pairs(r@) == text_pairs(s@),
{
    let mut r: Vec<(String, String)> = Vec::new();
    for i in 0..s.len()
        invariant
            r@.len() == i,
            forall|j: int| 0 <= j < i ==> (#[trigger] r@[j]).0@ == s@[j].0@ && r@[j].1@ == s@[j].1@,
    {
        r.push((s[i].0.clone(), s[i].1.clone()));
    }
    assert(text_pairs(r@) =~= text_pairs(s@));
    r
}

impl Clone for EndpointConfig {
    fn clone(&self) -> (r: Self)
        ensures
            r@ == self@,
    {
        EndpointConfig {
            url: self.url.clone(),
            events: clone_texts(&self.events),
            slow_threshold_ms: self.slow_threshold_ms,
            headers: clone_text_pairs(&self.headers),
            allow_private_backends: self.allow_private_backends,
        }
    }
}

impl EndpointConfig {
    /// Whether this endpoint listens for the event with the given filter token.
    pub fn matches_event(&self, event: &str) -> (r: bool)
        ensures
            r == self@.matches(event@),
    {
        if self.events.len() == 0 {
            return true;
        }
        let all: String = "all".to_owned();
        let wanted: String = event.to_owned();
        let ghost tokens = self@.events;
        for i in 0..self.events.len()
            invariant
                all@ == "all"@,
                wanted@ == event@,
                tokens == texts(self.events@),
                forall|j: int| 0 <= j < i ==> #[trigger] tokens[j] != "all"@ && tokens[j] != event@,
        {
            assert(tokens[i as int] == self.events@[i as int]@);
            if self.events[i] == all || self.events[i] == wanted {
                return true;
            }
        }
        false
    }
}

/// The plugin's configuration.
#[derive(Debug)]
pub struct WebhookPluginConfig {
    pub endpoints: Vec<EndpointConfig>,
    /// Retries after the first failed send.
    pub max_retries: u32,
    /// Base pause between attempts; it doubles with each attempt.
    pub retry_backoff_ms: u64,
    /// Timeout of one request.
    pub timeout_ms: u64,
    /// Depth of the bounded event queue.
    pub buffer_size: usize,
    pub circuit_breaker: CircuitBreakerConfig,
}

/// What a [`WebhookPluginConfig`] holds, as mathematical values.
#[verifier::ext_equal]
pub struct ConfigView {
    pub endpoints: Seq<EndpointView>,
    pub max_retries: u32,
    pub retry_backoff_ms: u64,
    pub timeout_ms: u64,
    pub buffer_size: usize,
    pub circuit_breaker: CircuitBreakerConfig,
}

impl ConfigView {
    /// Every endpoint is well-formed.
    pub open spec fn wf(self) -> bool {
        forall|i: int| 0 <= i < self.endpoints.len() ==> (#[trigger] self.endpoints[i]).wf()
    }

    /// The configuration of an operator who asks for nothing: no endpoint, and
    /// the default tunables.
    pub open spec fn defaults() -> ConfigView {
        ConfigView {
            endpoints: Seq::empty(),
            max_retries: 3,
            retry_backoff_ms: 1000,
            timeout_ms: 5000,
            buffer_size: 1024,
            circuit_breaker: CircuitBreakerConfig::defaults(),
        }
    }

    /// The configuration as it is applied: never more than
    /// [`WEBHOOK_RETRY_HARD_CAP`] retries.
    pub open spec fn capped(self) -> ConfigView {
        ConfigView {
            max_retries: if self.max_retries > WEBHOOK_RETRY_HARD_CAP {
                WEBHOOK_RETRY_HARD_CAP
            } else {
                self.max_retries
            },
            ..self
        }
    }
}

pub open spec fn endpoint_views(s: Seq<EndpointConfig>) -> Seq<EndpointView> {
    s.map_values(|e: EndpointConfig| e@)
}

impl View for WebhookPluginConfig {
    type V = ConfigView;

    open spec fn view(&self) -> ConfigView {
        ConfigView {
            endpoints: endpoint_views(self.endpoints@),
            max_retries: self.max_retries,
            retry_backoff_ms: self.retry_backoff_ms,
            timeout_ms: self.timeout_ms,
            buffer_size: self.buffer_size,
            circuit_breaker: self.circuit_breaker,
        }
    }
}

impl Default for WebhookPluginConfig {
    fn default() -> (r: Self)
        ensures
            r@ == ConfigView::defaults(),
    {
        let r = WebhookPluginConfig {
            endpoints: Vec::new(),
            max_retries: default_max_retries(),
            retry_backoff_ms: default_retry_backoff_ms(),
            timeout_ms: default_timeout_ms(),
            buffer_size: default_buffer_size(),
            circuit_breaker: CircuitBreakerConfig::default(),
        };
        assert(r@ =~= ConfigView::defaults());
        r
    }
}

impl Clone for WebhookPluginConfig {
    fn clone(&self) -> (r: Self)
        ensures
            r@ == self@,
    {
        let mut endpoints: Vec<EndpointConfig> = Vec::new();
        for i in 0..self.endpoints.len()
            invariant
                endpoints@.len() == i,
                forall|j: int| 0 <= j < i ==> #[trigger] endpoints@[j]@ == self.endpoints@[j]@,
        {
            endpoints.push(self.endpoints[i].clone());
        }
        assert(endpoint_views(endpoints@) =~= endpoint_views(self.endpoints@));
        WebhookPluginConfig {
            endpoints,
            max_retries: self.max_retries,
            retry_backoff_ms: self.retry_backoff_ms,
            timeout_ms: self.timeout_ms,
            buffer_size: self.buffer_size,
            circuit_breaker: self.circuit_breaker,
        }
    }
}

} // verus!
