[package]
name = "akari_server"
version = "0.1.0"
edition = "2021"
publish = false

[dependencies]
anyhow = "1"
base64 = "0.22"
block2 = "0.4"
clap = { version = "4", features = ["derive"] }
env_logger = "0.11"
futures = "0.3"
icrate = "0.1"
liboci-cli = "*"
log = "0.4"
objc2 = "0.5"
serde = { version = "1", features = ["derive"] }
serde_json = "1"
tarpc = { version = "0.34", features = ["full"] }
tokio = { version = "1", features = ["full"] }
