//! The configuration as it is applied, and how the plugin presents itself.

use crate::config::ConfigView;
use crate::plugin::{PluginClass, PluginManifest};
use vstd::prelude::*;

verus! {

/// The configuration that is applied is the one that was asked for, but that
/// more than ten retries count as ten.
pub proof fn law_only_retries_are_capped(config: ConfigView)
    ensures
        ({
            let applied = config.capped();
            &&& config.max_retries <= 10 ==> applied == config
            &&& config.max_retries > 10 ==> applied.max_retries == 10
            &&& applied.endpoints == config.endpoints
            &&& applied.retry_backoff_ms == config.retry_backoff_ms
            &&& applied.timeout_ms == config.timeout_ms
            &&& applied.buffer_size == config.buffer_size
            &&& applied.circuit_breaker == config.circuit_breaker
        }),
{
}

/// The documented defaults, which an empty or absent block yields.
pub proof fn law_documented_defaults()
    ensures
        ({
            let d = ConfigView::defaults();
            &&& d.endpoints.len() == 0
            &&& d.max_retries == 3
            &&& d.retry_backoff_ms == 1000
            &&& d.timeout_ms == 5000
            &&& d.buffer_size == 1024
            &&& d.circuit_breaker.consecutive_5xx_threshold == 5
            &&& d.circuit_breaker.open_duration_ms == 30_000
            &&& d.circuit_breaker.half_open_probe_count == 1
        }),
        crate::plugin::is_absent(""@) && crate::plugin::is_absent("null"@),
        forall|text: Seq<char>|
            text.len() > 0 && text != "null"@ ==> !#[trigger] crate::plugin::is_absent(text),
{
    reveal_strlit("");
}

/// How the plugin presents itself.
pub proof fn law_manifest(m: PluginManifest)
    requires
        m.is_webhook_manifest(),
    ensures
        m.id@ == "dev.mcpg.webhook"@,
        m.version@ == "0.1.0"@,
        m.name@ == "Webhook Notifications"@,
        m.plugin_class == PluginClass::ToolGate,
        m.protocol_version@ == "1.0"@,
        m.license is None,
        m.required_capabilities@.len() == 0,
        m.tags@.len() == 0,
        m.provides@.len() == 0,
        m.provides_schemes@.len() == 0,
        m.module_path_prefix@ == "mcpg_plugin_integration_webhook"@,
        m.backend_profile is None,
{
}

/// One text stands before another if it is a shorter beginning of it, or has
/// the lesser code point in the first place where the two differ; no text stands
/// before itself.
pub proof fn law_texts_go_by_code_points(a: Seq<char>, b: Seq<char>, k: int)
    ensures
        0 <= k < a.len() && k < b.len() && a.take(k) == b.take(k) && a[k] != b[k] ==> (
        crate::config::precedes(a, b) <==> (a[k] as u32) < (b[k] as u32)),
        k == a.len() && k < b.len() && a == b.take(k) ==> crate::config::precedes(a, b),
        k == b.len() && k <= a.len() && b == a.take(k) ==> !crate::config::precedes(a, b),
    decreases a.len(),
{
    if a.len() > 0 && b.len() > 0 {
        if k > 0 && k <= a.len() && k <= b.len() {
            let x = a.drop_first();
            let y = b.drop_first();
            law_texts_go_by_code_points(x, y, k - 1);
            if a.take(k) == b.take(k) {
                assert(a.take(k)[0] == b.take(k)[0]);
                assert(x.take(k - 1) =~= a.take(k).drop_first());
                assert(y.take(k - 1) =~= b.take(k).drop_first());
            }
            assert(k == a.len() ==> a.take(k) =~= a);
            assert(k == b.len() ==> b.take(k) =~= b);
            assert(k == a.len() ==> x.take(k - 1) =~= x);
            assert(k == b.len() ==> y.take(k - 1) =~= y);
        }
    }
}

} // verus!
