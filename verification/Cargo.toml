[package]
name = "pbrt_rs"
version = "0.1.0"
edition = "2021"
publish = false

[dependencies]
rand = "0.8"
nalgebra = "*"
image = { version = "*", default-features = false, features = ["png", "rayon"] }
rayon = "*"
