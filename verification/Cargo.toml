[package]
name = "scaloscope"
version = "0.1.0"
edition = "2021"
publish = false

[dependencies]
atomic_float = "1.1.0"
cpal = "0.16.0"
