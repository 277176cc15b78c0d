[package]
name = "codex_api"
version = "0.1.0"
edition = "2021"
publish = false

[dependencies]
serde = { version = "1", features = ["derive"] }
serde_json = "1"
futures = "0.3"
tokio = { version = "1", features = ["sync", "time", "rt", "macros"] }
tracing = "0.1"
eventsource-stream = "0.2"
async-trait = "0.1"
