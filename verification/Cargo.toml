[package]
name = "cardgame"
version = "0.1.0"
edition = "2021"
publish = false

[dependencies]
axum = { version = "*", features = ["ws"] }
base62 = "*"
dotenvy = "*"
futures-util = "*"
http = "*"
rand = "0.9"
serde = { version = "*", features = ["derive"] }
serde_json = "*"
thiserror = "*"
tokio = { version = "*", features = ["full"] }
tower = "*"
tower-http = { version = "*", features = ["cors"] }
tracing-subscriber = "*"
uuid = { version = "*", features = ["v4"] }
