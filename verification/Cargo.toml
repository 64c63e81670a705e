[package]
name = "rocker"
version = "0.1.0"
edition = "2021"
publish = false

[dependencies]
nix = "=0.22.3"
libc = "=0.2.190"
threadpool = "=1.8.1"
