[package]
name = "template_sync"
version = "0.1.0"
edition = "2021"
publish = false

[dependencies]
clap = { version = "4", features = ["derive"] }
env_logger = "0.11"
git2 = { version = "*", default-features = false }
log = "0.4"
serde = { version = "1", features = ["derive"] }
serde_derive = "1"
tempfile = "3"
toml = "0.8"
