[package]
name = "xilem"
version = "0.1.0"
edition = "2021"
publish = false

[dependencies]
druid-shell = "0.8"
futures = "0.3"
futures-task = "0.3"
kurbo = "0.9"
tokio = { version = "1", features = ["rt", "rt-multi-thread", "sync", "time"] }
