[package]
name = "docker_agent"
version = "0.1.0"
edition = "2021"
publish = false

[dependencies]
tokio = { version = "*", features = ["sync", "rt-multi-thread", "macros", "net", "io-util"] }
tokio-stream = { version = "*", features = ["sync"] }
axum = "*"
uuid = { version = "*", features = ["v4"] }
time = { version = "*", features = ["formatting", "parsing"] }
serde = { version = "*", features = ["derive"] }
serde_json = "*"
tracing = "*"
tracing-subscriber = { version = "*", features = ["env-filter"] }
thiserror = "*"
argh = "*"
bollard = "*"
