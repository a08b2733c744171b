[package]
name = "raftbot"
version = "0.1.0"
edition = "2021"
publish = false

[dependencies]
zip = { version = "=9.1.0", default-features = false }
chrono = { version = "=0.4.45", default-features = false, features = ["std", "clock"] }
serde = { version = "=1.0.229", features = ["derive"] }
serde_json = "=1.0.154"
tokio = { version = "=1.54.1", features = ["rt-multi-thread", "macros", "sync", "time", "signal", "fs"] }
reqwest = { version = "=0.12.28", default-features = false, features = ["json", "multipart"] }
mongodb = { version = "=3.9.1", default-features = false, features = ["compat-3-0-0", "rustls-tls"] }
tokio-tungstenite = "=0.30.0"
futures-util = "=0.3.34"
image = { version = "=0.25.10", default-features = false, features = ["png"] }
dashmap = "=6.2.1"
regex = "*"
