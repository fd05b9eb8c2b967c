[package]
name = "tello_sdk"
version = "0.1.0"
edition = "2021"
publish = false

[dependencies]
tokio = { version = "1", features = ["net", "time", "rt", "rt-multi-thread"] }
