[package]
name = "basalt_server"
version = "0.1.0"
edition = "2021"
publish = false

[dependencies]
log = "0.4"
serde = { version = "1", features = ["derive"] }
toml = "0.8"
env_logger = "0.11"
tokio = { version = "1", features = ["rt-multi-thread", "net", "sync", "macros", "time"] }
dashmap = "6"
thiserror = "2"
