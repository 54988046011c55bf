[package]
name = "mold"
version = "0.1.0"
edition = "2021"
publish = false

[dependencies]
rand = "=0.8.8"
bevy = { version = "0.7", default-features = false, features = ["bevy_winit", "render", "x11"] }
bytemuck = { version = "1", features = ["derive"] }
image = { version = "0.23", default-features = false, features = ["png"] }
darling = "=0.13.4"
