[package]
name = "openclaw_manager"
version = "0.1.0"
edition = "2021"
publish = false

[dependencies]
log = "=0.4.35"
env_logger = "=0.11.11"
chrono = "=0.4.45"
dirs = "=7.0.0"
serde = { version = "=1.0.229", features = ["derive"] }
serde_json = "1"
reqwest = { version = "=0.12.28", default-features = false, features = ["blocking", "rustls-tls"] }
zip = { version = "=9.2.2", default-features = false, features = ["deflate"] }
