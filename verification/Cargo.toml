[package]
name = "mlxtop"
version = "0.1.0"
edition = "2021"
publish = false

[dependencies]
crossterm = "0.28.1"
ratatui = "0.29.0"
serde = { version = "1", features = ["derive"] }
serde_json = "1"
