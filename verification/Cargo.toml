[package]
name = "telegram_client_rs"
version = "0.1.0"
edition = "2021"
publish = false

[dependencies]
anyhow = "1"
chrono = "0.4"
crossterm = "0.28"
dirs = "*"
grammers-client = "0.7"
grammers-session = "0.7"
grammers-tl-types = "0.7"
ratatui = "0.29"
serde = { version = "1", features = ["derive"] }
serde_json = "1"
tokio = { version = "1", features = ["full"] }
