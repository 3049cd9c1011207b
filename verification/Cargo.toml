[package]
name = "offbeat"
version = "0.1.0"
edition = "2021"
publish = false

[dependencies]
gltf = { version = "=1.4.1", default-features = false }
gltf-json = { version = "*", features = ["names"] }
image = { version = "=0.25.10", default-features = false, features = ["png", "dds"] }
