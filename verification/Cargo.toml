[package]
name = "pixel_paint_studio"
version = "0.1.0"
edition = "2021"
publish = false

[dependencies]
image = { version = "0.25", default-features = false, features = ["png", "jpeg"] }
macroquad = "0.4"
rfd = "0.15"
