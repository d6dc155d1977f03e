//! Webhook notifications for a tool gateway: which lifecycle events a tool
//! call gives rise to, which endpoints hear of them, and how each delivery is
//! guarded, retried and given up.

pub mod backoff;
pub mod circuit;
pub mod config;
pub mod delivery;
pub mod event;
pub mod json;
pub mod laws;
pub mod plugin;
pub mod queue;
pub mod sender;
pub mod target;

pub use circuit::CircuitState;
pub use config::{
    CircuitBreakerConfig, EndpointConfig, WebhookPluginConfig, WEBHOOK_RETRY_HARD_CAP,
};
pub use delivery::{
    AttemptReply, DeliveryAction, DeliveryOutcome, DeliveryPhase, DeliverySignal, DeliveryStep, Job,
    Method, Request,
};
pub use event::WebhookEvent;
pub use json::Json;
pub use plugin::{
    GateDecision, PluginClass, PluginContext, PluginIdentity, PluginManifest, WebhookPlugin,
    PLUGIN_ID, PLUGIN_VERSION, SHUTDOWN_DRAIN_BUDGET_MS,
};
pub use queue::{EventQueue, Notification};
pub use sender::{BackgroundSender, RunStep};
pub use target::{DropReason, EndpointTarget, PinnedClient, ResolvedAddress};
