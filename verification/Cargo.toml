[package]
name = "qwen_engine"
version = "0.1.0"
edition = "2021"
publish = false

[dependencies]
serde = { version = "1", features = ["derive"] }
serde_json = "1"
thiserror = "*"
log = "0.4"
dirs = "*"
tokio = { version = "1", features = ["sync", "fs", "time", "io-util", "rt"] }
tokio-util = "0.7"
futures-util = "0.3"
reqwest = { version = "*", default-features = false, features = ["stream", "rustls-tls"] }
async-trait = "0.1"
qwen3-asr = { version = "*", default-features = false }
