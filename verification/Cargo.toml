[package]
name = "pfs3"
version = "0.1.2"
edition = "2021"
publish = false

[dependencies]
anyhow = "=1.0.104"
clap = { version = "=4.6.7", features = ["derive"] }
env_logger = "=0.11.11"
fuser = { version = "=0.15.1", default-features = false }
libc = "=0.2.191"
