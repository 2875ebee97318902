[package]
name = "game_engine"
version = "0.1.0"
edition = "2021"
publish = false

[dependencies]
image = { version = "=0.24.9", default-features = false, features = ["png", "jpeg", "bmp", "tga"] }
gl = "=0.14.0"
glutin = "=0.20.1"
nalgebra = { version = "=0.29.0", features = ["serde-serialize"] }
nalgebra-glm = "0.15"
ncollide3d = "=0.32.0"
nphysics3d = "=0.24.0"
notify = "=4.0.18"
ron = "=0.5.1"
rusttype = "=0.7.9"
serde = { version = "=1.0.229", features = ["derive"] }
