[package]
name = "portaki_modules"
version = "0.1.0"
edition = "2021"
publish = false

[dependencies]
serde = { version = "=1.0.229", features = ["derive"] }
serde_json = "=1.0.154"
chrono = "=0.4.45"
uuid = { version = "=1.29.0", features = ["v4", "serde"] }
portaki-sdk = { version = "=10.17.0", features = ["kv", "events", "platform"] }
