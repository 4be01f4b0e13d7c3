[package]
name = "phira-monitor"
version = "0.1.0"
edition = "2021"
publish = false

[dependencies]
anyhow = "=1.0.104"
chrono = { version = "=0.4.45", features = ["serde"] }
log = "=0.4.35"
macroquad = "=0.4.16"
pretty_env_logger = "=0.5.0"
reqwest = { version = "=0.12.28", default-features = false, features = ["json", "rustls-tls"] }
serde = { version = "=1.0.229", features = ["derive"] }
serde_yaml = "0.9"
tokio = { version = "1", features = ["rt-multi-thread", "net", "time", "sync"] }
