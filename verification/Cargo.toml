[package]
name = "personal_server"
version = "0.1.0"
edition = "2021"
publish = false

[dependencies]
axum = "*"
crossterm = "*"
csv = "*"
ratatui = "*"
ratatui-textarea = "*"
serde = { version = "*", features = ["derive"] }
serde_json = "*"
tokio = { version = "*", features = ["full"] }
