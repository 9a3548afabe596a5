[package]
name = "egui_bridge"
version = "0.1.0"
edition = "2021"
publish = false

[dependencies]
egui = "0.27"
crossbeam-queue = "0.3"
itertools = "0.12"
godot = "0.1"
