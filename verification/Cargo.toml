[package]
name = "accountability"
version = "0.1.0"
edition = "2021"
publish = false

[dependencies]
chrono = "0.4"
hex = "0.4"
rand = "0.8"
serde = { version = "1", features = ["derive"] }
serde_json = "1"
rusqlite = { version = "0.37", features = ["bundled-sqlcipher"] }
keyring = "3"
log = "0.4"
env_logger = "0.11"
thiserror = "2"
tokio = { version = "1", features = ["rt-multi-thread", "macros", "net", "sync", "time"] }
tokio-tungstenite = "0.27"
futures-util = "0.3"
active-win-pos-rs = "0.9"
