[package]
name = "animus"
version = "0.1.0"
edition = "2021"
publish = false

[dependencies]
axum = "0.7"
crc32fast = "1"
reqwest = { version = "0.12", default-features = false, features = ["json", "rustls-tls"] }
rmp-serde = "1"
serde = { version = "1", features = ["derive"] }
serde_json = "1"
tokio = { version = "1", features = ["full"] }
tracing = "0.1"
tracing-subscriber = { version = "0.3", features = ["env-filter"] }
