[package]
name = "physics_sim"
version = "0.1.0"
edition = "2021"
publish = false

[dependencies]
gl = "*"
glfw = "*"
skia-safe = { version = "*", features = ["gl"] }
