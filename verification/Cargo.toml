[package]
name = "sis_kernel"
version = "0.1.0"
edition = "2021"
publish = false

[dependencies]
spin = "=0.9.9"
heapless = "0.8"
half = "2"
