[package]
name = "run_tracker"
version = "0.1.0"
edition = "2021"
publish = false

[dependencies]
base64 = "=0.22.1"
uuid = { version = "=1.27.0", features = ["v4"] }
serde = { version = "=1.0.229", features = ["derive"] }
serde_json = "=1.0.151"
tokio = { version = "=1.53.2", features = ["rt-multi-thread", "macros", "net", "time"] }
axum = "=0.7.9"
axum-extra = { version = "=0.9.6", features = ["cookie"] }
reqwest = { version = "=0.12.28", default-features = false, features = ["json"] }
chrono = { version = "=0.4.45", features = ["serde"] }
