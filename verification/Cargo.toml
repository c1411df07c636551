[package]
name = "examproxy"
version = "0.1.0"
edition = "2021"
publish = false

[dependencies]
hex = "0.4"
chrono = "0.4"
clap = "3"
ctrlc = "3"
env_logger = "0.9"
log = "0.4"
