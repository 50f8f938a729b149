[package]
name = "service_chain"
version = "0.1.0"
edition = "2021"
publish = false

[dependencies]
tokio = { version = "1", default-features = false, features = ["sync", "rt", "rt-multi-thread"] }
