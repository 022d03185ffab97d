[package]
name = "svled"
version = "0.1.0"
edition = "2021"
publish = false

[dependencies]
chrono = "0.4"
crossbeam-channel = "0.5"
ctrlc = "3"
env_logger = "*"
gumdrop = "0.8"
image = { version = "0.25", default-features = false, features = ["jpeg"] }
indicatif = "*"
inquire = "*"
log = "0.4"
opencv = "*"
rand = "0.8"
serde = { version = "1", features = ["derive"] }
serde_json = "1"
serialport = { version = "4", default-features = false }
toml = "*"
