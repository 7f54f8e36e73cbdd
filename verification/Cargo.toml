[package]
name = "qtools"
version = "0.1.0"
edition = "2021"
publish = false

[dependencies]
rusqlite = { version = "=0.40.2", features = ["bundled"] }
tokio-rusqlite = { version = "=0.8.0", features = ["bundled"] }
tokio = { version = "=1.54.1", features = ["sync", "rt", "macros"] }
uuid = { version = "=1.29.0", features = ["v4"] }
chrono = "=0.4.45"
serde = { version = "=1.0.229", features = ["derive"] }
serde_json = "=1.0.154"
thiserror = "=2.0.21"
reqwest = { version = "=0.12.28", default-features = false, features = ["json", "rustls-tls"] }
rig-core = "=0.38.2"
