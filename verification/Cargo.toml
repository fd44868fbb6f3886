[package]
name = "surveillance_system"
version = "0.1.0"
edition = "2021"
publish = false

[dependencies]
bcrypt = "*"
chrono = "*"
once_cell = "*"
serde = { version = "*", features = ["derive"] }
serde_json = "*"
log = "*"
env_logger = "*"
