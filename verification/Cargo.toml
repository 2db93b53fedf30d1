[package]
name = "grass_rs"
version = "0.1.0"
edition = "2021"
publish = false

[dependencies]
meshopt = "*"
gltf = "1"
nalgebra-glm = "*"
ash = { version = "0.38", default-features = false, features = ["std"] }
