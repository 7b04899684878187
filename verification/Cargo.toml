[package]
name = "local_models"
version = "0.1.0"
edition = "2021"
publish = false

[dependencies]
url = "2"
sha2 = "0.10"
serde = { version = "1", features = ["derive"] }
serde_json = "1"
tokio = { version = "1", features = ["fs", "io-util", "process", "time", "rt", "macros", "sync"] }
http = "1"
uuid = { version = "1", features = ["v4"] }
tracing = "0.1"
ratatui = { version = "0.29", default-features = false }
