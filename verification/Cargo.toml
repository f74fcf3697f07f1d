[package]
name = "growcli_chat"
version = "0.1.0"
edition = "2021"
publish = false

[dependencies]
serde = { version = "1", features = ["derive"] }
serde_json = "1"
tokio = { version = "1", default-features = false, features = ["sync", "time", "rt", "macros"] }
futures = "0.3"
eventsource-stream = "0.2"
dirs = "*"
tracing = "0.1"
