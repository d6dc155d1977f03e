[package]
name = "mcpg-plugin-integration-webhook"
version = "0.1.0"
edition = "2021"
publish = false

[dependencies]
metrics = "0.24"
reqwest = { version = "0.12", default-features = false, features = ["blocking", "rustls-tls"] }
serde = { version = "1", features = ["derive"] }
serde_json = "1"
tracing = "0.1"
url = "2"
