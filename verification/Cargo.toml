[package]
name = "arena_bot"
version = "0.1.0"
edition = "2021"
publish = false

[dependencies]
rand = "*"
serde = { version = "*", features = ["derive"] }
serde_json = "*"
tokio = { version = "*", features = ["rt", "time"] }
tokio-tungstenite = "*"
url = "*"
futures-util = "*"
