[package]
name = "orkesy"
version = "0.1.0"
edition = "2021"
publish = false

[dependencies]
serde = { version = "=1.0.229", features = ["derive"] }
serde_yaml = "=0.9.34"
serde_json = "=1.0.154"
clap = { version = "=4.6.7", features = ["derive"] }
crossterm = "0.28"
