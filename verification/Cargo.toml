[package]
name = "swarm_core"
version = "0.1.0"
edition = "2021"
publish = false

[dependencies]
rand = "0.8"
anyhow = "1"
env_logger = "0.10"
futures = "0.3"
redis = { version = "0.23", features = ["tokio-comp"] }
tokio = { version = "1", features = ["rt", "time"] }
