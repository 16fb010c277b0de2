[package]
name = "carbon"
version = "0.1.0"
edition = "2021"
publish = false

[dependencies]
serde = { version = "=1.0.229", features = ["derive"] }
tokio = { version = "=1.54.1", features = ["full"] }
futures = "=0.3.34"
rayon = "=1.12.0"
log = "=0.4.34"
env_logger = "=0.11.11"
clap = "=2.34.0"
bincode = "1"
