[package]
name = "lamport"
version = "0.1.0"
edition = "2021"

[dependencies]
bitcoin_hashes = "0.11"
rand = "0.8"
