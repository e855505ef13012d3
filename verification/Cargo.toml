[package]
name = "creditrisk_api_rs"
version = "0.1.0"
edition = "2021"
publish = false

[dependencies]
byteorder = "*"
axum = "*"
serde = { version = "*", features = ["derive"] }
serde_json = "*"
thiserror = "*"
tokio = { version = "*", features = ["macros", "rt-multi-thread", "net", "fs", "sync"] }
tower-http = { version = "*", features = ["trace"] }
tracing = "*"
tracing-subscriber = "*"
chrono = "*"
