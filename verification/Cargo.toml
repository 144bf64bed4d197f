[package]
name = "spherical_hex"
version = "0.1.0"
edition = "2021"
publish = false

[dependencies]
glam = "*"
