[package]
name = "maniparse"
version = "0.1.0"
edition = "2021"
publish = false

[dependencies]
mustache = "*"
serde_yaml = "*"
serde = { version = "1", features = ["derive"] }
anyhow = "1"

[dev-dependencies]
itertools = "*"
