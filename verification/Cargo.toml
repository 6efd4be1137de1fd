[package]
name = "loopless"
version = "0.1.0"
edition = "2021"
publish = false

[dependencies]
bevy_app = "=0.9.1"
bevy_ecs = "=0.9.1"
bevy_time = "=0.9.1"
bevy_utils = "=0.9.1"
