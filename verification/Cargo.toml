[package]
name = "deinflect"
version = "0.1.0"
edition = "2021"

[dependencies]
bitflags = "2"
once_cell = "1"
