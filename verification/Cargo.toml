[package]
name = "telegram_relay"
version = "0.1.0"
edition = "2021"
publish = false

[dependencies]
color-eyre = "0.6"
reqwest = { version = "0.11", features = ["json"] }
rocket = { version = "0.5", features = ["json"] }
serde = { version = "1", features = ["derive"] }
