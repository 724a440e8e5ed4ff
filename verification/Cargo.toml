[package]
name = "speech_relay"
version = "0.1.0"
edition = "2021"
publish = false

[dependencies]
serde_json = "*"
tokio = { version = "*", features = ["rt-multi-thread", "macros", "sync", "net", "time"] }
tokio-tungstenite = "*"
futures-util = "*"
dotenvy = "*"
