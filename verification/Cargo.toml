[package]
name = "pudding_kernel"
version = "0.1.0"
edition = "2021"
publish = false

[dependencies]
bitflags = "1"
