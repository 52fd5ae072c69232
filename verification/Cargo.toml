[package]
name = "agent_sidecar"
version = "0.1.0"
edition = "2021"
publish = false

[dependencies]
aho-corasick = "1"
base64 = "0.22"
serde = { version = "1", features = ["derive"] }
serde_json = "1"
uuid = { version = "1", features = ["v4", "serde"] }
thiserror = "1"
anyhow = "1"
tokio = { version = "1", features = ["full"] }
axum = "0.7"
tower-http = { version = "0.5", features = ["trace"] }
tracing = "0.1"
tracing-subscriber = { version = "0.3", features = ["env-filter", "fmt"] }
sqlx = { version = "0.8", default-features = false, features = ["postgres", "runtime-tokio"] }
config = { version = "0.14", default-features = false }
