[package]
name = "liquidmon"
version = "0.4.0"
edition = "2021"
publish = false

[dependencies]
serde = { version = "=1.0.229", features = ["derive"] }
serde_json = "=1.0.154"
tokio = { version = "=1.54.1", features = ["process", "time", "sync", "rt", "macros"] }
futures-util = { version = "=0.3.34", features = ["sink"] }
