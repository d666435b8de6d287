[package]
name = "nats_gateway"
version = "0.1.0"
edition = "2021"
publish = false

[dependencies]
async-nats = "*"
axum = "0.8"
futures = "0.3"
nuid = "*"
serde = { version = "1", features = ["derive"] }
serde_json = "1"
tokio = { version = "1", features = ["full"] }
tower-http = { version = "*", features = ["cors"] }
