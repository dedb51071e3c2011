[package]
name = "agentic-core"
version = "0.1.0"
edition = "2021"
publish = false

[dependencies]
serde = { version = "1", features = ["derive"] }
serde_json = "1"
chrono = { version = "0.4", default-features = false, features = ["clock", "std", "serde"] }
uuid = { version = "1", features = ["v4"] }
regex = "1"
tokio = { version = "1", features = ["sync", "macros", "rt", "rt-multi-thread", "time"] }
tokio-stream = "0.1"
async-trait = "0.1"
futures = "0.3"
tracing = "0.1"
thiserror = "2"
