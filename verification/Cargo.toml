[package]
name = "qu_chat"
version = "0.1.0"
edition = "2021"
publish = false

[dependencies]
base64 = "0.22"
hmac = "0.12"
sha2 = "0.10"
hex = "0.4"
chrono = "0.4"
uuid = { version = "1", features = ["v4"] }
flume = "0.11"
serde = { version = "1", features = ["derive"] }
serde_json = "1"
tokio = { version = "1", features = ["rt-multi-thread", "macros", "sync", "time"] }
reqwest = { version = "0.12", default-features = false, features = ["json"] }
futures = "0.3"
ratatui = "0.29"
