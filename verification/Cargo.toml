[package]
name = "ambient_lighting"
version = "0.1.0"
edition = "2021"
publish = false

[dependencies]
scrap = "=0.5.0"

[dependencies.serialport]
version = "=4.10.1"
default-features = false
