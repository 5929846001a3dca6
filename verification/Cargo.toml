[package]
name = "backtester"
version = "0.1.0"
edition = "2021"
publish = false

[dependencies]
apca = "*"
futures = "*"
serde_json = "*"
sqlite = "*"
tokio = { version = "1", features = ["macros", "rt-multi-thread"] }
