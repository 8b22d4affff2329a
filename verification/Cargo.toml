[package]
name = "lhm"
version = "0.1.0"
edition = "2021"
publish = false

[dependencies]
anyhow = "1"
futures-util = { version = "0.3", features = ["sink"] }
interprocess = { version = "2", features = ["tokio"] }
parking_lot = "0.12"
rmp-serde = "1"
serde = { version = "1", features = ["derive"] }
thiserror = "1"
tokio = { version = "1", features = ["io-util", "macros", "net", "rt", "rt-multi-thread", "sync"] }
tokio-util = { version = "0.7", features = ["codec"] }
widestring = "1"
windows-service = "0.7"
