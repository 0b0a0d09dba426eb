[package]
name = "drive_workspace"
version = "0.1.0"
edition = "2021"
publish = false

[dependencies]
chrono = "=0.4.45"
serde = { version = "=1.0.229", features = ["derive"] }
serde_json = "=1.0.154"
sqlite = "=0.37.4"
grammers-session = "=0.11.0"
grammers-client = "*"
tokio = { version = "=1.54.1", features = ["rt"] }
