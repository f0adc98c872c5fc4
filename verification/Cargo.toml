[package]
name = "reverie"
version = "0.1.0"
edition = "2021"
publish = false

[dependencies]
libc = "=0.2.190"
nix = { version = "=0.29.0", features = ["fs", "process", "ptrace", "signal", "uio"] }
clap = "=4.6.7"
log = "=0.4.34"
fern = "=0.7.1"
