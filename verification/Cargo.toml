[package]
name = "blinksy"
version = "0.10.0"
edition = "2021"
publish = false

[dependencies]
fugit = "0.3"
heapless = "0.8"
embedded-hal = "1.0"
embedded-hal-async = "1.0"
glam = "*"
num-traits = "0.2"
noise-functions = "*"
miniquad = "0.4"
