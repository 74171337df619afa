[package]
name = "minik8s"
version = "0.1.0"
edition = "2021"
publish = false

[dependencies]
uuid = { version = "=1.29.0", features = ["v4"] }
chrono = "=0.4.45"
rand = "=0.8.8"
serde_json = "=1.0.154"
nginx-config = "=0.13.2"
indenter = "0.3"
serde = { version = "=1.0.229", features = ["derive"] }
serde_yaml = "=0.9.34"
anyhow = "=1.0.104"
tracing = "=0.1.44"
tracing-subscriber = "=0.3.23"
tokio = { version = "=1.54.1", features = ["full"] }
reqwest = { version = "=0.11.27", default-features = false, features = ["json"] }
tokio-tungstenite = "=0.20.1"
futures-util = "=0.3.34"
