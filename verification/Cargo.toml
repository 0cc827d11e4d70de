[package]
name = "catalogue"
version = "0.1.0"
edition = "2021"
publish = false

[dependencies]
chrono = "*"
data-encoding = "*"
env_logger = "*"
log = "*"
ring = "*"
rusqlite = "*"
serde = { version = "*", features = ["derive"] }
serde_json = "*"
structopt = "*"
toml = "*"
walkdir = "*"
