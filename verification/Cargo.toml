[package]
name = "bcachefs"
version = "0.1.0"
edition = "2021"
publish = false

[dependencies]
cc = "1"
uuid = "=1.29.0"
