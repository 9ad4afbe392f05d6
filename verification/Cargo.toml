[package]
name = "voxov"
version = "0.1.0"
edition = "2021"
publish = false

[dependencies]
blake3 = "*"
hex = "*"
rand = "*"
chrono = "*"
serde_json = "*"
