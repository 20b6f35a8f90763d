[package]
name = "nexo_poller_google_calendar"
version = "0.1.0"
edition = "2021"
publish = false

[dependencies]
anyhow = "1"
async-trait = "0.1.92"
chrono = { version = "0.4.45", default-features = false, features = ["clock"] }
dashmap = "6.2.1"
serde = { version = "1", features = ["derive"] }
serde_json = "1.0.154"
tokio = { version = "1", default-features = false, features = ["rt-multi-thread", "macros"] }
tracing = "0.1"
tracing-subscriber = { version = "0.3", features = ["env-filter"] }
nexo-poller = { version = "0.2.0", default-features = false }
nexo-microapp-sdk = { version = "0.1.20", default-features = false, features = ["poller"] }
nexo-broker = { version = "0.1.6", default-features = false }
nexo-config = { version = "0.1.10", default-features = false }
