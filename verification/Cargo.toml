[package]
name = "rust_movenet"
version = "0.1.0"
edition = "2021"
publish = false

[dependencies]
libc = "*"
log = "*"
nix = { version = "*", features = ["ioctl"] }
rayon = "*"
structopt = "0.3"
