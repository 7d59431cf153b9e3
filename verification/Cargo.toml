[package]
name = "gateway_core"
version = "0.1.0"
edition = "2021"
publish = false

[dependencies]
serde_json = "1"
bytes = "1"
getrandom = "0.2"
chrono = { version = "0.4", default-features = false, features = ["std"] }
serde = { version = "1", features = ["derive"] }
futures = "0.3"
tokio = { version = "1", features = ["sync", "time", "rt"] }
reqwest = { version = "0.12", default-features = false, features = ["stream"] }
axum = { version = "0.7", default-features = false }
