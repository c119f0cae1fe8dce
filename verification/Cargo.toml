[package]
name = "limes"
version = "0.2.0"
edition = "2021"
publish = false

[dependencies]
libc = "=0.2.191"
zeroize = "=1.9.1"
smithay-client-toolkit = { version = "=0.19.2", default-features = false, features = ["calloop"] }
wayland-client = "=0.31.15"
