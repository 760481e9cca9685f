[package]
name = "simbelmyne"
version = "0.1.0"
edition = "2021"
publish = false

[dependencies]
anyhow = "1"
colored = "2"

[dev-dependencies]
nom = "7"
