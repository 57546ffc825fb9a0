[package]
name = "fem_2d"
version = "0.1.0"
edition = "2021"
publish = false

[dependencies]
bytes = "1"
json = "0.12"
nalgebra = "*"
num-complex = "0.4"
rayon = "1"
smallvec = "1"
