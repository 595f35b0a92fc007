[package]
name = "termruns"
version = "0.1.0"
edition = "2021"
publish = false

[dependencies]
urlocator = "0.1"
