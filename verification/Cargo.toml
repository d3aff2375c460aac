[package]
name = "nim_proxy"
version = "0.1.0"
edition = "2021"
publish = false

[dependencies]
axum = { version = "0.8", features = ["macros"] }
base64 = "0.22"
bytes = "1"
futures-util = "0.3"
getrandom = "0.2"
metrics = "0.24"
reqwest = { version = "0.12", default-features = false, features = ["stream"] }
serde = { version = "1", features = ["derive"] }
serde_json = "1"
sha2 = "0.10"
tokio = { version = "1", features = ["rt-multi-thread", "macros", "sync", "time", "net"] }
tokio-stream = "0.1"
tracing = "0.1"
utoipa = { version = "5", features = ["axum_extras"] }
