[package]
name = "kameo"
version = "0.1.0"
edition = "2021"
publish = false

[dependencies]
arc-swap = "1"
bytes = "1"
futures = "0.3"
rkyv = "0.8"
tokio = { version = "1", features = ["rt", "time"] }
tracing = "0.1"
