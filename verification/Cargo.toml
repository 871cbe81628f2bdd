[package]
name = "raft_engine"
version = "0.1.0"
edition = "2021"
publish = false

[dependencies]
serde = { version = "1", features = ["derive"] }
thiserror = "1"
tokio = { version = "1", features = ["sync", "rt", "time", "macros"] }
tracing = "0.1"

[dev-dependencies]
rand = "0.8"
