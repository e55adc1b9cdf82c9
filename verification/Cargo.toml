[package]
name = "fdaf_aec"
version = "0.1.0"
edition = "2021"
publish = false

[dependencies]
rustfft = "6"
num-complex = "0.4"
nalgebra = { version = "*", default-features = false, features = ["std"] }
