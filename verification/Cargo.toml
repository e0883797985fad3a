[package]
name = "streaminfa"
version = "0.1.0"
edition = "2021"
publish = false

[dependencies]
bytes = "=1.12.1"
uuid = { version = "=1.29.0", features = ["v4", "v7"] }
bcrypt = "=0.19.3"
rand = "=0.8.8"
subtle = "=2.6.1"
lru = "=0.19.0"
dashmap = "=6.2.1"
chrono = "=0.4.45"
parking_lot = "=0.12.5"
tokio = { version = "=1.54.1", features = ["full"] }
tokio-util = { version = "=0.7.20", features = ["rt", "io"] }
axum = { version = "=0.8.9", features = ["multipart"] }
tower = { version = "=0.5.3", features = ["util", "limit", "timeout"] }
tower-http = { version = "=0.6.11", features = ["cors", "timeout", "limit", "trace"] }
http = "=1.5.0"
serde = { version = "=1.0.229", features = ["derive"] }
serde_json = "=1.0.154"
toml = "=0.8.23"
anyhow = "=1.0.104"
thiserror = "=2.0.21"
tracing = "=0.1.44"
tracing-subscriber = { version = "=0.3.23", features = ["env-filter", "json"] }
metrics = "=0.24.6"
metrics-exporter-prometheus = { version = "=0.16.2", default-features = false }
aws-sdk-s3 = "1"
ffmpeg-next = "*"
