[package]
name = "sometime"
version = "0.1.0"
edition = "2021"
publish = false

[dependencies]
anyhow = "1"
chrono = "0.4"
cosmic-text = "*"
env_logger = "*"
libc = "0.2"
smithay-client-toolkit = { version = "*", default-features = false, features = ["calloop"] }
wayland-client = "*"
