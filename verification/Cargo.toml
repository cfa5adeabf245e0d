[package]
name = "slhdsa"
version = "0.1.0"
edition = "2021"
publish = false

[dependencies]
signature = "=3.0.0"
rand = "=0.9.5"
generic-array = "=1.4.5"

[dev-dependencies]
sha2 = "=0.10.9"
sha3 = "=0.10.9"
