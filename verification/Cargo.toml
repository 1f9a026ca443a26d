[package]
name = "hmac_drbg"
version = "0.1.0"
edition = "2021"
publish = false

[dependencies]
hmac = "=0.7.1"
digest = "=0.8.1"
generic-array = "=0.12.4"
sha2 = "=0.8.2"
