[package]
name = "elements_build"
version = "0.1.0"
edition = "2021"
publish = false

[dependencies]
anyhow = "1"
futures = "0.3"
hex = "0.4"
image = "0.24"
serde = { version = "1", features = ["derive"] }
serde_json = "1"
toml = "*"
