[package]
name = "pods_model"
version = "0.1.0"
edition = "2021"
publish = false

[dependencies]
anyhow = "1"
futures = "0.3"
indexmap = { version = "2", features = ["serde"] }
log = "0.4"
once_cell = "1"
podman-api = "0.10"
serde = { version = "1", features = ["derive"] }
serde_json = "1"
tokio = { version = "1", features = ["rt-multi-thread", "fs", "io-util", "time", "macros"] }
uuid = { version = "1", features = ["v4"] }
