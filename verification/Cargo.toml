[package]
name = "rspack_queue"
version = "0.1.0"
edition = "2021"
publish = false

[dependencies]
tokio = { version = "1", features = ["sync"] }
serde_json = "1"
rustc-hash = "1"
itertools = "0.11"
