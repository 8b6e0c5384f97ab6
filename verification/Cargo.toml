[package]
name = "device_registry"
version = "0.1.0"
edition = "2021"
publish = false

[dependencies]
rust-py-miio = "*"
serde = { version = "*", features = ["derive"] }
serde_json = "*"
