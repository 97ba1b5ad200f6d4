[package]
name = "valen_borrowck"
version = "0.1.0"
edition = "2021"
publish = false

[dependencies]
indexmap = "2"
