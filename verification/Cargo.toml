[package]
name = "wgpu_owo"
version = "0.1.0"
edition = "2021"
publish = false

[dependencies]
rand = "0.9"
anyhow = "1"
color-eyre = "0.6"
winit = "0.30"
wgpu = "*"
bytemuck = { version = "1", features = ["derive"] }
glam = "*"
image = { version = "*", default-features = false, features = ["png"] }
pollster = "*"
env_logger = "*"
log = "0.4"
smol = "2"
async-fs = "2"
rodio = "*"
