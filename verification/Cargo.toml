[package]
name = "torture"
version = "0.1.0"
edition = "2021"
publish = false

[dependencies]
sha2 = "=0.10.9"
serde_json = "=1.0.151"
serde = { version = "=1.0.229", features = ["derive"] }
tokio = { version = "=1.53.2", features = ["full"] }
tokio-rustls = "=0.24.1"
rustls-pemfile = "=1.0.4"
reqwest = { version = "=0.11.27", default-features = false, features = ["rustls-tls"] }
clap = "=3.2.25"
log = "=0.4.34"
env_logger = "=0.11.11"
anyhow = "=1.0.104"
