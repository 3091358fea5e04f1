[package]
name = "splitscreen"
version = "0.1.0"
edition = "2021"
publish = false

[dependencies]
bevy = { version = "=0.8.1", default-features = false, features = ["render", "bevy_winit", "x11"] }
bevy-inspector-egui = "0.13"
bevy_mod_picking = "=0.9.0"
