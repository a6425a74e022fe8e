[package]
name = "ramd_core"
version = "0.1.0"
edition = "2021"
publish = false

[dependencies]
sha3 = "=0.10.9"
hex = "=0.4.3"
wasmer = "=4.4.0"

[dev-dependencies]
wasmi = "0.31"
wat = "1"
