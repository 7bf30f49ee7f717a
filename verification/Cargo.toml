[package]
name = "bloom"
version = "0.1.0"
edition = "2021"
publish = false

[dependencies]
dialoguer = "*"
env_logger = "*"
log = "0.4"
serde = { version = "1", features = ["derive"] }
serde_json = "1"
thiserror = "1"
