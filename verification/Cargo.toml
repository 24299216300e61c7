[package]
name = "ressa"
version = "0.1.0"
edition = "2021"
publish = false

[dependencies]
ress = "0.7"
resast = "0.3"
