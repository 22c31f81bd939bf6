[package]
name = "jobrail"
version = "0.1.0"
edition = "2021"
publish = false

[dependencies]
uuid = { version = "1", features = ["v4", "serde"] }
serde = { version = "1", features = ["derive"] }
serde_json = "1"
redis = { version = "*", features = ["tokio-comp", "aio"] }
tokio = { version = "1", features = ["full"] }
axum = "0.8"
dotenvy = "0.15"
