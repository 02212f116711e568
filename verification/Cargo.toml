[package]
name = "create2_predict"
version = "0.1.0"
edition = "2021"
publish = false

[dependencies]
sha3 = "0.10"
sha2 = "0.10"
bs58 = "0.5"
hex = "0.4"
rand = "0.8"
rayon = "1"
metal = "*"
