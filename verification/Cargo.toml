[package]
name = "drgraph"
version = "0.1.0"
edition = "2021"
publish = false

[dependencies]
rand = "=0.4.6"
pairing = "=0.14.2"
sapling-crypto = "=0.9.0"
jubjub = "=0.11.1"
merkletree = "0.9"
