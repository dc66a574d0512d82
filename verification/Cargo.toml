[package]
name = "codeverse"
version = "0.1.0"
edition = "2021"
publish = false

[dependencies]
anyhow = "*"
dirs = "*"
image = { version = "*", default-features = false, features = ["png", "jpeg"] }
serde = { version = "*", features = ["derive"] }
thiserror = "*"
toml = "*"
tracing = "*"
tracing-subscriber = "*"
