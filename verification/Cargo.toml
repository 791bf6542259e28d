[package]
name = "vtt_baxum"
version = "0.1.0"
edition = "2021"
publish = false

[dependencies]
rand = "*"
chrono = "*"
chrono-tz = "*"
serde = { version = "*", features = ["derive"] }
serde_json = "*"
axum = "*"
tokio = { version = "*", features = ["rt-multi-thread", "macros", "net", "sync"] }
tower-http = { version = "*", features = ["cors"] }
rusqlite = { version = "*", features = ["bundled"] }
anyhow = "*"
log = "*"
env_logger = "*"
