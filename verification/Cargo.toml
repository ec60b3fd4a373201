[package]
name = "chat_cafe"
version = "0.1.0"
edition = "2021"
publish = false

[dependencies]
anyhow = "=1.0.104"
chrono = "=0.4.45"
ciborium = "=0.2.2"
clap = { version = "=4.6.7", features = ["derive"] }
env_logger = "=0.11.11"
futures = "=0.3.34"
log = "=0.4.35"
log4rs = "=1.4.0"
ratatui = "=0.30.2"
rusqlite = { version = "=0.41.1", features = ["bundled"] }
serde = { version = "=1.0.229", features = ["derive"] }
serde_yaml = "=0.9.34"
tokio = { version = "=1.54.1", features = ["full"] }
tokio-util = { version = "=0.7.20", features = ["codec"] }
