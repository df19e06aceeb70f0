[package]
name = "sd"
version = "0.1.0"
edition = "2021"
publish = false

[dependencies]
tokio = { version = "1", features = ["full"] }
log = "0.4"
env_logger = "0.10"
chrono = "0.4"
rand = "0.8"
nix = "0.26"
sysinfo = "0.28"
