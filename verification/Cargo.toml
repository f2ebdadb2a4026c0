[package]
name = "network_monitor"
version = "0.1.0"
edition = "2021"
publish = false

[dependencies]
anyhow = "*"
chrono = "*"
clap = { version = "*", features = ["derive"] }
ctrlc = "*"
env_logger = "*"
log = "*"
tokio = { version = "*", features = ["full"] }

[dev-dependencies]
toml = "*"
