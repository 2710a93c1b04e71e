[package]
name = "sharded_kv"
version = "0.1.0"
edition = "2021"
publish = false

[dependencies]
bytes = "1"
mini-redis = "0.4"
tokio = { version = "1", features = ["rt-multi-thread", "net", "macros"] }
