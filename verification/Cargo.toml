[package]
name = "hepos"
version = "0.1.0"
edition = "2021"
publish = false

[dependencies]
limine = "=0.5.0"
spin = "=0.9.9"
