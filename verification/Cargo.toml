[package]
name = "cs2_skin_changer"
version = "1.0.0"
edition = "2021"
publish = false

[dependencies]
env_logger = "0.11"
log = "0.4"
serde = { version = "1", features = ["derive"] }
serde_json = "1"
strum = { version = "0.26", features = ["derive"] }
toml = "0.8"
ureq = "3"
