[package]
name = "meterlog"
version = "0.1.0"
edition = "2021"
publish = false

[dependencies]
chrono = "0.4"
clap = { version = "4", features = ["derive"] }
env_logger = "*"
log = "0.4"
mdns-sd = "*"
ureq = { version = "2", default-features = false }
