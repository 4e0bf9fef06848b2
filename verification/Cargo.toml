[package]
name = "wgpu_terminal"
version = "0.1.0"
edition = "2021"
publish = false

[dependencies]
nix = { version = "0.29", features = ["feature", "term", "fs", "signal", "process", "ioctl"] }
libc = "0.2"
fontdue = "0.9"
cgmath = "0.18"
crossbeam-channel = "0.5"
anyhow = "1"
thiserror = "1"
log = "0.4"
