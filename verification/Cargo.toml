[package]
name = "bevy_hierarchy"
version = "0.1.0"
edition = "2021"
publish = false

[dependencies]
bevy_ecs = "=0.8.1"
bevy_reflect = { version = "=0.8.1", features = ["bevy"] }
smallvec = "=1.16.4"
