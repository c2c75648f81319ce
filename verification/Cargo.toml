[package]
name = "riverborn"
version = "0.1.0"
edition = "2021"
publish = false

[dependencies]
serde = { version = "=1.0.229", features = ["derive"] }
serde_json = "=1.0.154"
renet = { version = "=1.2.0", default-features = false }
renet_netcode = { version = "=1.2.0", default-features = false }
image = { version = "=0.25.5", default-features = false, features = ["png"] }
winit = { version = "=0.30.13", default-features = false, features = ["x11"] }
