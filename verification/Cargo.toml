[package]
name = "raytracer"
version = "0.1.0"
edition = "2021"
publish = false

[dependencies]
bvh = "0.6"
nalgebra = "*"
rand = "*"
rayon = "*"
sdl2 = { version = "*", features = ["gfx"] }
