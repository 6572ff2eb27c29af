[package]
name = "relay8x"
version = "0.1.0"
edition = "2021"
publish = false

[dependencies]
bytes = "1"
serial = "0.4"
docopt = "1"
env_logger = "*"
log = "0.4"
serde = { version = "1", features = ["derive"] }
