[package]
name = "tc"
version = "0.1.0"
edition = "2021"
publish = false

[dependencies]
open = "*"
serde_json = "1"
