[package]
name = "orbital"
version = "0.1.0"
edition = "2021"
publish = false

[dependencies]
bevy = { version = "=0.18.1", default-features = false, features = ["std"] }
clap = { version = "4", features = ["derive"] }
either = "1"
image = { version = "0.25", default-features = false, features = ["ico"] }
rand = "0.9"
winit = { version = "0.30", default-features = false, features = ["x11", "rwh_06"] }
