[package]
name = "vr_lab_server"
version = "0.1.0"
edition = "2021"
publish = false

[dependencies]
anyhow = "1"
clap = { version = "4", features = ["derive"] }
env_logger = "*"
futures = "0.3"
log = "0.4"
once_cell = "1"
poem = "1"
quanta = "0.12"
serde = { version = "1", features = ["derive"] }
serde_derive = "1"
serde_json = "1"
socket2 = "0.5"
tokio = { version = "1", features = ["full"] }
tokio-util = { version = "0.7", features = ["codec"] }
uuid = { version = "1", features = ["v4"] }
