[package]
name = "discord_rust_framework"
version = "0.1.0"
edition = "2021"
publish = false

[dependencies]
serde = { version = "=1.0.229", features = ["derive"] }
serde_json = "=1.0.154"
futures = "=0.1.31"
futures-cpupool = "=0.1.8"
tokio-core = "=0.1.18"
websocket = { version = "=0.20.4", default-features = false, features = ["async"] }
reqwest = { version = "=0.9.24", default-features = false, features = ["rustls-tls"] }
