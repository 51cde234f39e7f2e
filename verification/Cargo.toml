[package]
name = "mdmirror"
version = "0.1.0"
edition = "2021"
publish = false

[dependencies]
tokio = { version = "*", features = ["rt-multi-thread", "macros", "sync", "fs", "time", "net", "signal", "io-util"] }
tokio-tungstenite = "*"
futures-util = "*"
notify = "*"
serde = { version = "*", features = ["derive"] }
serde_json = "*"
url = "*"
rand = "*"
