[package]
name = "bonding_curve_token"
version = "0.1.0"
edition = "2021"
publish = false

[dependencies]
anyhow = "1"
bitcoin = "0.32"
hex = "0.4"
