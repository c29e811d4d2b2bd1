[package]
name = "tharsis"
version = "0.1.0"
edition = "2021"
publish = false

[dependencies]
anyhow = "=1.0.104"
dirs = "=5.0.1"
futures-util = "=0.3.34"
reqwest = { version = "=0.12.28", features = ["stream"] }
serde = { version = "=1.0.229", features = ["derive"] }
sqlx = { version = "=0.8.6", features = ["sqlite", "runtime-tokio"] }
tokio = { version = "=1.54.1", features = ["full"] }
tracing = "=0.1.44"
tracing-subscriber = { version = "=0.3.23", features = ["env-filter"] }
uuid = { version = "=1.29.0", features = ["v4"] }
