[package]
name = "themer"
version = "0.1.0"
edition = "2021"
publish = false

[dependencies]
regex = "*"
toml = "*"
mustache = "*"
serde = { version = "*", features = ["derive"] }
argh = "*"
env_logger = "*"
log = "*"
