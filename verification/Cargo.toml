[package]
name = "trident"
version = "0.1.0"
edition = "2021"
publish = false

[dependencies]
async-trait = "0.1"
bitflags = "1"
thiserror = "1"
