[package]
name = "acmecrab"
version = "0.1.0"
edition = "2021"
publish = false

[dependencies]
anyhow = "1"
async-trait = "0.1"
axum = "0.6"
axum-extra = "0.7"
base64 = "0.21"
hyper = "0.14"
ipnetwork = "0.20"
is-terminal = "0.4"
serde = { version = "1", features = ["derive"] }
serde_json = "1"
thiserror = "1"
time = "0.3"
tokio = { version = "1", features = ["full"] }
tower-http = { version = "0.4", features = ["timeout", "trace"] }
tracing = "0.1"
tracing-subscriber = { version = "0.3", features = ["env-filter"] }
trust-dns-proto = "0.22"
trust-dns-server = "0.22"
