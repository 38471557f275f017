[package]
name = "os-watchdog"
version = "0.1.0"
edition = "2021"
publish = false

[dependencies]
aes-gcm = "0.10"
argon2 = { version = "0.5", features = ["std"] }
axum = "0.8"
chrono = "0.4"
clap = { version = "4", features = ["derive"] }
crossterm = "0.27"
get_if_addrs = "0.5"
jsonwebtoken = "9"
ratatui = "0.26"
rusqlite = { version = "0.31", features = ["bundled"] }
serde = { version = "1", features = ["derive"] }
serde_json = { version = "1", features = ["preserve_order"] }
serde_yaml = "0.9"
ssh2 = "0.9"
sysinfo = "0.30"
tokio = { version = "1", features = ["full"] }
tower-http = { version = "0.6", features = ["cors"] }
