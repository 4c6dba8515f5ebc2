[package]
name = "hex_island"
version = "0.1.0"
edition = "2021"
publish = false

[dependencies]
ggez = "0.5"
cgmath = { version = "0.17", features = ["mint"] }
gfx = "0.18"
simdnoise = "3"
num = "0.2"
