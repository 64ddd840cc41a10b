[package]
name = "demc"
version = "0.1.0"
edition = "2021"
publish = false

[dependencies]
time = "*"
toml = "*"
