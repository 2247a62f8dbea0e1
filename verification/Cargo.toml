[package]
name = "pigauge"
version = "0.1.0"
edition = "2021"
publish = false

[dependencies]
anyhow = "1"
clap = { version = "4", features = ["derive", "env"] }
env_logger = "0.11"
log = "0.4"
serialport = { version = "4", default-features = false }
gpio-cdev = "0.6"
tiny_http = "0.12"
tungstenite = "*"
serde = { version = "1", features = ["derive"] }
serde_json = "1"
