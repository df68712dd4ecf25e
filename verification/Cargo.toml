[package]
name = "edge_agent"
version = "0.8.0"
edition = "2021"
publish = false

[dependencies]
anyhow = "1"
axum = "0.7"
base64 = "0.22"
dashmap = "6"
hex = "0.4"
httpdate = "1"
ipnetwork = "0.20"
nix = { version = "0.29", features = ["signal"] }
quinn = "0.11"
rand = "0.8"
rcgen = "0.13"
reqwest = { version = "0.12", default-features = false, features = ["json", "rustls-tls"] }
rustls = { version = "0.23", default-features = false, features = ["ring", "std", "tls12"] }
serde = { version = "1", features = ["derive"] }
serde_json = "1"
sha2 = "0.10"
tokio = { version = "1", features = ["full"] }
tokio-util = { version = "0.7", features = ["io"] }
toml = "0.8"
tracing = "0.1"
tracing-subscriber = { version = "0.3", features = ["env-filter"] }
tun = { version = "0.6", features = ["async"] }
uuid = { version = "1", features = ["v4"] }
which = "6"
