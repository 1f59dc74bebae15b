[package]
name = "bloblib"
version = "0.1.0"
edition = "2021"
publish = false

[dependencies]
vexide = "*"
async-trait = "*"
