[package]
name = "airlock"
version = "0.1.0"
edition = "2021"
publish = false

[dependencies]
serde = { version = "1", features = ["derive"] }
serde_json = "1"
serde_yaml = "0.9"
uuid = { version = "1", features = ["v4"] }
anyhow = "1"
tracing = "0.1"
tracing-subscriber = { version = "0.3", features = ["env-filter"] }
tokio = { version = "1", features = ["sync", "time", "rt", "rt-multi-thread", "macros", "process", "io-util", "signal"] }
tokio-util = "0.7"
dirs = "5"
libc = "0.2"
