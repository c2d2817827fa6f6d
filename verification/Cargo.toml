[package]
name = "camera_models"
version = "0.1.0"
edition = "2021"
publish = false

[dependencies]
nalgebra = "*"
image = "*"
itertools = "*"
serde = { version = "*", features = ["derive"] }
toml = "*"
