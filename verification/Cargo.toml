[package]
name = "packagekit"
version = "0.1.0"
edition = "2021"
publish = false

[dependencies]
libc = "=0.2.191"
packagekit-sys = { version = "=0.1.0", features = ["v0_6_5"] }
