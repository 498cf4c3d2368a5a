[package]
name = "tracing_throttle"
version = "0.3.0"
edition = "2021"
publish = false

[dependencies]
ahash = { version = "=0.8.12", default-features = false, features = ["std"] }
dashmap = "=6.2.1"
tracing = "=0.1.44"
tracing-subscriber = "=0.3.23"
serde = { version = "=1.0.229", features = ["derive"] }
bincode = "=1.3.3"
tokio = { version = "=1.54.1", features = ["rt", "rt-multi-thread", "macros", "sync", "time"] }
redis = { version = "=1.8.1", features = ["tokio-comp", "connection-manager"] }
