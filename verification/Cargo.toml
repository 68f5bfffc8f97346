[package]
name = "faceid"
version = "0.1.0"
edition = "2021"
publish = false

[dependencies]
image = { version = "=0.25.10", default-features = false, features = ["jpeg", "png"] }
kamadak-exif = "=0.6.1"
kiddo = "=6.3.0"
litert = "=0.2.1"
ort = "=2.0.0-rc.15"
serde = { version = "=1.0.229", features = ["derive"] }
serde_json = "=1.0.154"
serde-big-array = "=0.5.1"
thiserror = "=2.0.21"
axum = { version = "=0.7.9", features = ["multipart"] }
tokio = { version = "=1.54.1", features = ["full"] }
tower-http = { version = "=0.6.11", features = ["cors", "trace"] }
utoipa = { version = "=5.4.0", features = ["axum_extras"] }
utoipa-swagger-ui = { version = "=8.1.0", features = ["axum"] }
clap = { version = "=4.5.61", features = ["derive"] }
tracing = "=0.1.44"
tracing-subscriber = { version = "=0.3.23", features = ["env-filter"] }
