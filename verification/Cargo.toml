[package]
name = "big_totoro"
version = "0.1.0"
edition = "2021"
publish = false

[dependencies]
anyhow = "1"
axum = { version = "0.6", features = ["ws", "headers"] }
chrono = "0.4"
dotenv = "0.15"
etcd-client = "0.11"
futures = "0.3"
jsonwebtoken = "8"
local-ip-address = "0.5"
rs-snowflake = "0.6"
serde = { version = "1", features = ["derive"] }
serde_json = { version = "1", features = ["raw_value"] }
tokio = { version = "1", features = ["full"] }
