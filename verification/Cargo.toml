[package]
name = "zepto"
version = "0.1.0"
edition = "2021"
publish = false

[dependencies]
crossterm = "0.28"
ratatui = "0.29"
dirs = "*"
serde = { version = "1", features = ["derive"] }
toml = "0.8"
