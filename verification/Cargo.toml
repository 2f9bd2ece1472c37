[package]
name = "control_plane"
version = "0.1.0"
edition = "2021"
publish = false

[dependencies]
redis = { version = "0.24", features = ["tokio-comp"] }
uuid = { version = "1", features = ["v4"] }
serde = { version = "1", features = ["derive"] }
serde_json = "1"
tokio = { version = "1", features = ["macros", "rt-multi-thread", "sync"] }
tokio-stream = "0.1"
tonic = "0.11"
prost = "0.12"
tracing = "0.1"
tracing-subscriber = { version = "0.3", features = ["env-filter"] }
pyo3 = "0.20"
cap-std = "3"
