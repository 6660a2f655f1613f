[package]
name = "relay"
version = "0.1.0"
edition = "2021"
publish = false

[dependencies]
tokio = { version = "1", features = ["net", "io-util", "sync", "signal", "macros", "rt-multi-thread"] }
uuid = { version = "1", features = ["v4"] }
