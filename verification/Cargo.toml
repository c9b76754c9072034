[package]
name = "bc-envelope-pattern"
version = "0.1.0"
edition = "2021"
publish = false

[dependencies]
bc-envelope = "=0.43.0"
bc-components = "=0.31.1"
dcbor = "=0.25.2"
dcbor-pattern = "=0.11.1"
known-values = "=0.15.5"
hex = "=0.4.3"
regex = "=1.13.1"

[dev-dependencies]
dcbor-parse = "=0.11.1"
