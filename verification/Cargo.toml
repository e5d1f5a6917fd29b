[package]
name = "io_buffer"
version = "0.1.0"
edition = "2021"
publish = false

[dependencies]
fastrand = "=2.5.0"
libc = "=0.2.191"
lz4 = "1"
nix = "=0.31.3"

[dev-dependencies]
md5 = "=0.8.1"
