[package]
name = "real_time_data_client"
version = "0.1.0"
edition = "2021"
publish = false

[dependencies]
tokio = { version = "1", features = ["rt-multi-thread", "macros", "sync", "time", "signal"] }
tokio-tungstenite = "*"
futures-util = "0.3"
serde = { version = "1", features = ["derive"] }
serde_json = "1"
