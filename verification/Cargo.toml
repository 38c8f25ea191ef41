[package]
name = "scanner"
version = "0.1.0"
edition = "2021"
publish = false

[dependencies]
base64 = "=0.23.1"
sha2 = "=0.11.0"
serde = { version = "*", features = ["derive"] }
serde_json = "*"
clap = { version = "*", features = ["derive"] }
tokio = { version = "*", features = ["full"] }
warp = { version = "=0.4.3", features = ["server", "websocket"] }
futures-util = "*"
