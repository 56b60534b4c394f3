[package]
name = "fatou"
version = "0.1.0"
edition = "2021"
publish = false

[dependencies]
image = { version = "0.24", default-features = false, features = ["png"] }
ndarray = "0.15"
num-complex = "0.4"
