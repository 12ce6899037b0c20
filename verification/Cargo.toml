[package]
name = "nzi_patches_rust"
version = "0.1.0"
edition = "2021"
publish = false

[dependencies]
num-complex = "*"
num-traits = "*"
nalgebra = "*"
scilib = "*"
plotters = { version = "*", default-features = false, features = ["bitmap_backend", "bitmap_encoder", "all_series", "all_elements"] }
