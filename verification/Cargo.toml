[package]
name = "raytracer"
version = "0.1.0"
edition = "2021"

[dependencies]
cgmath = "=0.18.0"
image = { version = "=0.24.9", default-features = false, features = ["png"] }
serde = { version = "1", features = ["derive"] }
serde_json = "1"
