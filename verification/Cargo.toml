[package]
name = "dock_style"
version = "0.1.0"
edition = "2021"
publish = false

[dependencies]
egui = "0.18"
epaint = "0.18"
