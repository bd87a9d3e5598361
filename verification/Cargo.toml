[package]
name = "mentor"
version = "0.1.0"
edition = "2021"
publish = false

[dependencies]
uuid = { version = "1", features = ["v4"] }
chrono = "0.4"
serde = { version = "1", features = ["derive"] }
serde_json = "1"
toml = "*"
tokio = { version = "1", features = ["full"] }
rmcp = { version = "*", features = ["server", "macros", "transport-io"] }
libsql = "*"
ratatui = "*"
crossterm = "*"
color-eyre = "*"
eyre = "*"
async-trait = "*"
