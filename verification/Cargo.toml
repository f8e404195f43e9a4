[package]
name = "uniclip_capture"
version = "0.1.0"
edition = "2021"
publish = false

[dependencies]
anyhow = "1"
async-trait = "0.1"
tokio = { version = "1", features = ["fs", "macros", "rt", "sync", "time"] }
tokio-util = "0.7"
tracing = "0.1"
unicode-normalization = "0.1"
