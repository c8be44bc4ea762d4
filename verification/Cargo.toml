[package]
name = "fast_photo_viewer"
version = "0.1.0"
edition = "2021"
publish = false

[dependencies]
rand = "=0.8.8"
ringbuf = "=0.4.8"
image = { version = "=0.25.10", default-features = false, features = ["jpeg", "png", "bmp", "webp", "gif", "tiff", "ico"] }
walkdir = "2"
pollster = "0.3"
eframe = { version = "=0.29.1", default-features = false, features = ["wgpu", "default_fonts", "x11"] }
egui_extras = { version = "=0.29.1", default-features = false, features = ["svg"] }
egui-wgpu = { version = "=0.29.1", default-features = false }
wgpu = { version = "=22.1.0", default-features = false, features = ["wgsl"] }
