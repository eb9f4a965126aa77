[package]
name = "pf2_loader"
version = "0.1.0"
edition = "2021"
publish = false

[dependencies]
ahash = "0.8"
byteorder = "1"
glam = "*"
rgb = "0.8"
