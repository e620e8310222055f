[package]
name = "whisper_api"
version = "0.1.0"
edition = "2021"
publish = false

[dependencies]
anyhow = "1"
version-compare = "0.1"
uuid = { version = "1", features = ["v4"] }
serde = { version = "1", features = ["derive"] }
serde_json = "1"
serde_yaml = "0.9"
toml = "0.8"
tempfile = "3"
thiserror = "1"
async-trait = "0.1"
tokio = { version = "1", features = ["full"] }
tokio-stream = "0.1"
tokio-tungstenite = "0.21"
futures-util = "0.3"
bytes = "1"
parking_lot = "0.12"
tracing = "0.1"
tracing-subscriber = { version = "0.3", features = ["env-filter"] }
env_logger = "0.10"
axum = { version = "0.7", features = ["multipart"] }
tower = "0.4"
tower-http = { version = "0.5", features = ["cors", "trace"] }
hyper = { version = "0.14", features = ["full"] }
symphonia = "0.5"
rubato = "0.14"
whisper-rs = "0.12"
audiopus = "0.2"
quinn = "0.11"
rustls = "0.23"
rcgen = "0.13"
