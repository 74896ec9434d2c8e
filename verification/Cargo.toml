[package]
name = "dualnet"
version = "0.1.0"
edition = "2021"
publish = false

[dependencies]
socket2 = { version = "=0.6.5", features = ["all"] }
async-std = "=1.13.2"
async-trait = "=0.1.92"

[dev-dependencies]
hex = "=0.4.3"
