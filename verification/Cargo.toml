[package]
name = "rex_core"
version = "0.1.0"
edition = "2021"
publish = false

[dependencies]
nucleo-matcher = "*"
toml = "*"
serde = { version = "*", features = ["derive"] }
serde_json = "*"
ratatui = "*"
crossterm = "*"
ratatui-themes = "*"
tokio = { version = "*", features = ["full"] }
reqwest = { version = "*", default-features = false, features = ["json"] }
axum = { version = "*", features = ["ws"] }
futures-util = "*"
tokio-tungstenite = "*"
async-trait = "*"
dirs = "*"
walkdir = "*"
log = "*"
uuid = { version = "*", features = ["v4"] }
