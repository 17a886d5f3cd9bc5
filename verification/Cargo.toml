[package]
name = "ballistics"
version = "0.1.0"
edition = "2021"
publish = false

[dependencies]
libm = "0.2"
egui = "0.18"
