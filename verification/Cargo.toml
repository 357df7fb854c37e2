[package]
name = "statusblocks"
version = "0.1.0"
edition = "2021"
publish = false

[dependencies]
chrono = "0.4"
systemstat = "0.2"
tokio = { version = "1", features = ["macros", "rt-multi-thread", "sync", "time"] }
