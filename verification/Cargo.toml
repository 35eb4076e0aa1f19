[package]
name = "netsentry"
version = "0.1.0"
edition = "2021"
publish = false

[dependencies]
serde = { version = "1", features = ["derive"] }
serde_json = "1"
chrono = { version = "0.4", default-features = false, features = ["clock", "std"] }
dirs = "6"
network-interface = "2"
tokio = { version = "1", features = ["rt", "net", "process", "sync", "time"] }
axum = { version = "0.8", default-features = false, features = ["tokio", "http1", "json"] }
