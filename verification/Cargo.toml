[package]
name = "m_claw"
version = "0.1.0"
edition = "2021"
publish = false

[dependencies]
serde = { version = "=1.0.229", features = ["derive"] }
serde_json = { version = "=1.0.154", features = ["preserve_order"] }
serde_yaml = "=0.9.34"
toml = "=0.8.23"
hmac = "=0.12.1"
sha2 = "=0.10.9"
base64 = "=0.22.1"
rand = "=0.9.5"
chrono = "=0.4.45"
uuid = { version = "=1.29.0", features = ["v4"] }
clap = { version = "=4.6.7", features = ["derive"] }
tokio = { version = "=1.54.1", features = ["full"] }
async-trait = "=0.1.92"
futures = "=0.3.34"
bytes = "=1.12.1"
anyhow = "=1.0.104"
tracing = "=0.1.44"
tracing-subscriber = { version = "=0.3.23", features = ["env-filter"] }
axum = "=0.8.9"
reqwest = { version = "=0.12.28", default-features = false, features = ["json", "stream"] }
rusqlite = { version = "=0.32.1", features = ["bundled"] }
glob = "=0.3.4"
