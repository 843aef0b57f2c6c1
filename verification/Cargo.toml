[package]
name = "leelo"
version = "0.1.0"
edition = "2021"
publish = false

[dependencies]
csv = "=1.4.0"
ryu = "=1.0.23"
