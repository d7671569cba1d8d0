[package]
name = "onnx_service"
version = "0.1.0"
edition = "2021"
publish = false

[dependencies]
anyhow = "=1.0.104"
axum = { version = "=0.8.9", features = ["macros"] }
clap = { version = "4", features = ["derive"] }
moka = { version = "=0.12.16", features = ["future"] }
ort = { version = "=2.0.0-rc.10", default-features = false, features = ["std", "ndarray", "tracing", "load-dynamic"] }
reqwest = { version = "=0.12.28", features = ["json"] }
serde = { version = "1", features = ["derive"] }
serde_json = "=1.0.154"
tokio = { version = "1", features = ["full"] }
tower = { version = "=0.5.3", features = ["util"] }
tower-http = { version = "=0.6.11", features = ["trace", "map-response-body"] }
tracing = "0.1"
tracing-subscriber = { version = "0.3", features = ["env-filter"] }
