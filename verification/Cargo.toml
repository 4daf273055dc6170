[package]
name = "chat_relay"
version = "0.1.0"
edition = "2021"
publish = false

[dependencies]
tokio = { version = "*", features = ["rt-multi-thread", "macros", "net", "sync", "io-std", "io-util"] }
tokio-tungstenite = "*"
futures-util = "*"
url = "*"
chrono = "*"
