[package]
name = "regenerator2000"
version = "0.1.0"
edition = "2021"
publish = false

[dependencies]
anyhow = "1"
base64 = "0.22"
flate2 = "1"
serde = { version = "1", features = ["derive"] }
serde_json = "1"
directories = "*"
ratatui = "0.29"
crossterm = "0.28"
