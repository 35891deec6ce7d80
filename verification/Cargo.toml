[package]
name = "nonoka"
version = "0.1.0"
edition = "2021"
publish = false

[dependencies]
anyhow = "1"
base64 = "0.22"
blake3 = { version = "1", features = ["pure"] }
crossterm = { version = "0.28", default-features = false, features = ["events"] }
futures-util = { version = "0.3", default-features = false, features = ["sink", "std"] }
reqwest = { version = "0.12", default-features = false, features = ["blocking", "json"] }
rusqlite = { version = "0.32", features = ["bundled"] }
serde = { version = "1", features = ["derive"] }
serde_json = "1"
tempfile = "3"
tokio = { version = "1", features = ["macros", "net", "process", "rt-multi-thread", "sync", "time", "io-util", "io-std"] }
tokio-tungstenite = "0.24"
