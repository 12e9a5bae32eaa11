[package]
name = "flex_metro_core"
version = "0.1.0"
edition = "2021"
publish = false

[dependencies]
yaml-rust = "0.4"
serde = { version = "1", features = ["derive"] }
serde_yaml = "0.9"
once_cell = "1"
chrono = "0.4"
log = "0.4"
