[package]
name = "raytracer"
version = "0.1.0"
edition = "2021"
publish = false

[dependencies]
rand = "0.8"
itertools = "0.12"
rayon = "1"
indicatif = { version = "0.17", features = ["rayon"] }
image = "0.24"
