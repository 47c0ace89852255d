[package]
name = "mrt-rs"
version = "2.0.1"
edition = "2021"
publish = false

[dependencies]
byteorder = "1"
