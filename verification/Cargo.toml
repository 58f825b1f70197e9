[package]
name = "fourth"
version = "0.1.0"
edition = "2021"
publish = false

[dependencies]
byte_string = "1"
futures = "0.3"
kcp = "*"
log = "0.4"
pretty_env_logger = "0.4"
serde = { version = "1", features = ["derive"] }
serde_yaml = "0.8"
tls-parser = "0.11"
tokio = { version = "1", features = ["rt-multi-thread", "net", "io-util", "sync", "time", "macros"] }
tokio_kcp = "*"
url = "2"
