[package]
name = "tweb"
version = "0.1.0"
edition = "2021"
publish = false

[dependencies]
markdown = "0.3"
chunked_transfer = "*"
log = "*"
pretty_env_logger = "*"
dirs = "*"
chrono = "*"
