[package]
name = "parking_garage"
version = "0.1.0"
edition = "2021"
publish = false

[dependencies]
glam = "*"
bytemuck = "1"
env_logger = { version = "0.10", default-features = false }
gilrs = { version = "0.10", default-features = false }
image = { version = "0.24", default-features = false, features = ["png"] }
pollster = "0.3"
serde = { version = "1", features = ["derive"] }
tokio = { version = "1", default-features = false, features = ["rt-multi-thread"] }
warp = { version = "0.3", default-features = false }
winit = { version = "0.28", default-features = false, features = ["x11"] }
