[package]
name = "pixelplay"
version = "0.1.0"
edition = "2021"
publish = false

[dependencies]
rand = "0.9"
image = { version = "*", default-features = false, features = ["png"] }
font-kit = "*"
pathfinder_geometry = "*"
wgpu = "*"
winit = "0.30"
pixels = "*"
glam = "*"
bytemuck = { version = "*", features = ["derive"] }
