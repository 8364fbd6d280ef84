[package]
name = "cess_pallets"
version = "0.1.0"
edition = "2021"
publish = false

[dependencies]
parity-scale-codec = "=3.7.5"
clap = { version = "=4.6.7", features = ["derive"] }
