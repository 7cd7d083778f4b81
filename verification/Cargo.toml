[package]
name = "csvgen"
version = "0.1.0"
edition = "2021"
publish = false

[dependencies]
clap = { version = "4", features = ["derive"] }
env_logger = "0.11"
fastrand = "2"
log = "0.4"
tempfile = "3"
