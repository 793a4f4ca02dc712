[package]
name = "bevy_window"
version = "0.1.0"
edition = "2021"
publish = false

[dependencies]
bevy_platform = { version = "0.16", features = ["std"] }
bevy_app = "0.16"
bevy_ecs = "0.16"
