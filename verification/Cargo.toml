[package]
name = "imbik"
version = "0.1.0"
edition = "2021"
publish = false

[dependencies]
fastrand = "2"
serde = { version = "1", features = ["derive"] }
serde_json = "1"
toml = "0.8"
tempfile = "3"
clap = { version = "4", features = ["derive"] }
ctrlc = "3"
env_logger = "0.11"
log = "0.4"
rayon = "1"
