[package]
name = "rawzeo"
version = "0.1.0"
edition = "2021"
publish = false

[dependencies]
circular-buffer = "=2.0.1"
serialport = { version = "*", default-features = false }
