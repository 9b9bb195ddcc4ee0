[package]
name = "acp_core"
version = "0.1.0"
edition = "2021"
publish = false

[dependencies]
serde_json = "=1.0.154"
chrono = "=0.4.45"
uuid = { version = "=1.29.0", features = ["v4"] }
regex = "=1.13.1"
serde = { version = "1", features = ["derive"] }
tokio = { version = "1", features = ["process", "io-util", "sync", "time", "rt", "macros", "fs"] }
parking_lot = "0.12"
thiserror = "1"
reqwest = { version = "*", default-features = false, features = ["blocking", "json"] }
urlencoding = "*"
