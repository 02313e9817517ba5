[package]
name = "rudis"
version = "0.1.0"
edition = "2021"
publish = false

[dependencies]
ahash = "=0.8.12"
indicatif = "0.17"
parking_lot = "=0.12.5"
