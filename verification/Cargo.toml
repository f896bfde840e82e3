[package]
name = "market_ingest"
version = "0.1.0"
edition = "2021"
publish = false

[dependencies]
chrono = "*"
async-nats = "*"
bytes = "*"
futures-util = "*"
serde = { version = "*", features = ["derive"] }
serde_json = "*"
sqlx = { version = "*", default-features = false, features = ["runtime-tokio", "tls-rustls", "postgres", "chrono"] }
tokio = { version = "*", features = ["full"] }
tokio-util = "*"
tracing = "*"
tracing-subscriber = "*"
