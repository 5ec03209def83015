[package]
name = "ecobook"
version = "0.1.0"
edition = "2021"
publish = false

[dependencies]
serde_json = "1"
serde = { version = "1", features = ["derive"] }
serde_yaml = "0.9"
axum = { version = "0.7", features = ["multipart"] }
tokio = { version = "1", features = ["full"] }
mongodb = "2"
bson = { version = "2", features = ["chrono-0_4"] }
chrono = { version = "0.4", features = ["serde"] }
reqwest = { version = "0.12", default-features = false, features = ["json", "rustls-tls"] }
uuid = { version = "1", features = ["v4"] }
image = { version = "0.25", default-features = false, features = ["png", "jpeg", "gif", "webp", "bmp"] }
webp = "0.3"
tower = "0.4"
tower-http = { version = "0.5", features = ["cors", "limit", "fs"] }
tower_governor = "0.4"
governor = "0.6"
futures-util = "0.3"
anyhow = "1"
tracing = "0.1"
aws-sdk-s3 = { version = "1", default-features = false, features = ["rt-tokio", "behavior-version-latest", "rustls"] }
