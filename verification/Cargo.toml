[package]
name = "heatmon"
version = "0.1.0"
edition = "2021"
publish = false

[dependencies]
tokio = { version = "*", features = ["rt-multi-thread", "macros", "sync", "time", "signal"] }
tokio-util = "*"
serde = { version = "*", features = ["derive"] }
serde_json = "*"
reqwest = { version = "*", default-features = false }
futures = "*"
bluer = { version = "*", features = ["bluetoothd"] }
uuid = "*"
env_logger = "*"
