[package]
name = "mioecho"
version = "0.1.0"
edition = "2021"
publish = false

[dependencies]
bytes = "=0.3.0"
mio = "=0.5.1"
slab = "=0.1.3"
