[package]
name = "pixterm"
version = "0.1.0"
edition = "2021"
publish = false

[dependencies]
noto-sans-mono-bitmap = "0.2"
pixels = "=0.9.0"
winit = "=0.27.5"
