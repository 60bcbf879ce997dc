[package]
name = "downlink"
version = "0.1.0"
edition = "2021"
publish = false

[dependencies]
anyhow = "1"
axum = "=0.6.20"
bs58 = "=0.5.1"
clap = { version = "4", features = ["derive"] }
config = { version = "*", default-features = false, features = ["toml"] }
env_logger = "*"
helium-crypto = "=0.11.0"
k256 = "=0.13.4"
log = "0.4"
metrics = "*"
metrics-exporter-prometheus = "*"
prost = "=0.14.4"
rand = "0.8"
reqwest = { version = "*", default-features = false, features = ["json"] }
serde = { version = "1", features = ["derive"] }
serde_json = "1"
tokio = { version = "1", features = ["full"] }
tokio-stream = "*"
tonic = "=0.14.6"
tonic-prost = "0.14"
tracing = "0.1"
tracing-subscriber = { version = "0.3", features = ["env-filter", "fmt"] }
