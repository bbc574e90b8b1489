[package]
name = "ssm"
version = "0.1.0"
edition = "2021"
publish = false

[dependencies]
bincode = { version = "2", features = ["serde"] }
clap = { version = "4", features = ["derive"] }
crossterm = "0.29"
home = "0.5"
ratatui = "0.30"
serde = { version = "1", features = ["derive"] }
shared_child = "1"
toml = "0.9"
uuid = { version = "1", features = ["v4", "serde"] }
