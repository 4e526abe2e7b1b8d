[package]
name = "rangefs"
version = "0.1.0"
edition = "2021"
publish = false

[dependencies]
anyhow = "*"
clap = { version = "*", features = ["derive"] }
env_logger = "*"
fuser = "*"
ipc-channel = "*"
libc = "*"
log = "*"
nix = { version = "*", features = ["fs", "process"] }
