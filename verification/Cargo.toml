[package]
name = "ioblink"
version = "0.1.0"
edition = "2021"
publish = false

[dependencies]
clap = { version = "4", features = ["derive"] }
env_logger = "0.11"
libc = "0.2"
log = "0.4"
serde = { version = "1", features = ["derive"] }
signal-hook = "0.3"
thiserror = "2"
toml = "0.8"
