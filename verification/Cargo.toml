[package]
name = "watering"
version = "0.1.0"
edition = "2021"
publish = false

[dependencies]
axum = "*"
include_dir = "*"
rusqlite = "*"
serde = { version = "*", features = ["derive"] }
tokio = { version = "*", features = ["io-util", "macros", "net", "process", "rt", "time"] }
