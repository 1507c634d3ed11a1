[package]
name = "pusheventhub"
version = "0.1.0"
edition = "2021"
publish = false

[dependencies]
chrono = "0.4"
url = "2"
rustc-serialize = "0.3"
rust-crypto = "0.2"
clap = "4"
log = "0.4"
env_logger = "0.11"
hyper = { version = "0.14", features = ["client", "http1", "tcp", "stream"] }
hyper-tls = "0.5"
tokio = { version = "1", features = ["rt", "fs", "net", "time"] }
tokio-util = { version = "0.7", features = ["io"] }
