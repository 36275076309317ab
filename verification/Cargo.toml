[package]
name = "doris_cli"
version = "0.1.0"
edition = "2021"
publish = false

[dependencies]
aes-gcm = "=0.10.3"
base64 = "=0.22.1"
rand = "=0.8.8"
dirs = "=5.0.1"
serde = { version = "=1.0.229", features = ["derive"] }
serde_json = "=1.0.154"
serde_yaml = "=0.9.34"
anyhow = "=1.0.104"
clap = { version = "=4.6.7", features = ["derive"] }
tokio = { version = "=1.54.1", features = ["full"] }
reqwest = { version = "=0.12.28", default-features = false, features = ["json", "rustls-tls"] }
mysql_async = { version = "=0.37.1", default-features = false, features = ["minimal-rust"] }
comfy-table = "=7.2.2"
tracing-subscriber = { version = "=0.3.23", features = ["env-filter"] }
crossterm = "=0.28.1"
ratatui = "=0.29.0"
tui-textarea = "=0.7.0"
