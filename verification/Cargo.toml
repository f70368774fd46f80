[package]
name = "rust_eze_racing"
version = "0.1.0"
edition = "2021"
publish = false

[dependencies]
axum = "0.7"
bb8 = "0.8"
bb8-postgres = "0.8"
chrono = "0.4"
humantime = "2"
rand = "0.8"
scylla = "0.13"
tokio = { version = "1", features = ["full"] }
tokio-postgres = "0.7"
tracing = "0.1"
tracing-subscriber = { version = "0.3", features = ["env-filter"] }
uuid = { version = "1", features = ["v4"] }
