[package]
name = "chat_relay"
version = "0.1.0"
edition = "2021"
publish = false

[dependencies]
rand = "0.8"
futures-channel = "0.3"
futures = "0.3"
futures-util = "0.3"
tokio = { version = "1", features = ["rt-multi-thread", "macros", "net", "sync", "io-util", "io-std", "time"] }
tokio-tungstenite = "*"
hyper = { version = "1", features = ["http1", "server"] }
hyper-util = { version = "*", features = ["tokio"] }
http-body-util = "*"
serde = { version = "1", features = ["derive"] }
serde_json = "1"
anyhow = "1"
argh = "*"
ctrlc = "*"
sqlite = "*"
