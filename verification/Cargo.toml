[package]
name = "focus"
version = "0.1.0"
edition = "2021"
publish = false

[dependencies]
markdown = "*"
chrono = "*"
actix-web = "*"
env_logger = "*"
log = "*"
