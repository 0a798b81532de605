[package]
name = "loro"
version = "0.1.0"
edition = "2021"
publish = false

[dependencies]
serde_json = "*"
chrono = "*"
rand = "*"
serde = { version = "*", features = ["derive"] }
reqwest = { version = "*", default-features = false, features = ["json", "stream"] }
axum = "*"
tokio = { version = "*", features = ["full"] }
futures = "*"
uuid = { version = "*", features = ["v4"] }
secrecy = "*"
dotenvy = "*"
tower-http = { version = "*", features = ["cors", "trace"] }
tracing = "*"
tracing-subscriber = { version = "*", features = ["env-filter"] }
