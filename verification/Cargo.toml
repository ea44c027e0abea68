[package]
name = "eq_layer"
version = "0.1.0"
edition = "2021"
publish = false

[dependencies]
ringbuf = "=0.4.8"
cpal = "0.15"
anyhow = "1"
clap = { version = "4", features = ["derive"] }
dirs = "6"
env_logger = "0.11"
serde = { version = "1", features = ["derive"] }
toml = "0.8"
