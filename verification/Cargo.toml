[package]
name = "myscontroller_rs"
version = "0.1.0"
edition = "2021"
publish = false

[dependencies]
crossbeam-channel = "*"
rust-ini = "*"
log = "0.4"
env_logger = "*"
