[package]
name = "static_server"
version = "0.1.0"
edition = "2021"
publish = false

[dependencies]
tiny_http = "*"
log = "*"
env_logger = "*"
