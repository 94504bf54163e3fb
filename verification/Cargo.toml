[package]
name = "sagittarius"
version = "0.1.0"
edition = "2021"
publish = false

[dependencies]
anyhow = "1"
async-std = "1"
chrono = "0.4"
env_logger = "0.7"
log = "0.4"
lru = "0.7"
once_cell = "1"
rand = "0.7"
tokio = { version = "0.2", features = ["macros", "tcp", "dns", "time", "rt-threaded", "io-util"] }
