[package]
name = "punktfunk-webos"
version = "0.1.0"
edition = "2021"
publish = false

[dependencies]
anyhow = "1"
libc = "0.2"
sdl2 = "0.37"
tracing = "0.1"
