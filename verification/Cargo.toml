[package]
name = "trojan_rust"
version = "0.7.1"
edition = "2021"
publish = false

[dependencies]
constant_time_eq = "0.2"
sha2 = "0.10"
dashmap = "5"
rustls-pemfile = "1"
rustls = "0.20"
tokio-rustls = "0.23"
tokio = { version = "1", features = ["full"] }
tokio-stream = "0.1"
futures = "0.3"
serde = { version = "1", features = ["derive"] }
serde_json = "1"
log = "0.4"
env_logger = "0.9"
clap = "3"
lazy_static = "1"
once_cell = "1"
