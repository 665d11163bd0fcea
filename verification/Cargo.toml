[package]
name = "viewskater"
version = "0.1.0"
edition = "2021"
publish = false

[dependencies]
natord = "=1.0.9"
eframe = { version = "=0.31.1", default-features = false, features = ["glow", "default_fonts", "x11"] }
egui = "=0.31.1"
egui-winit = { version = "=0.31.1", default-features = false }
image = { version = "=0.25.10", default-features = false, features = ["png", "jpeg", "bmp", "webp", "gif", "tiff", "qoi", "tga"] }
serde = { version = "=1.0.229", features = ["derive"] }
serde_yaml = "=0.9.34"
dirs = "=6.0.0"
clap = { version = "=4.5.61", features = ["derive"] }
log = "=0.4.35"
tracing = "=0.1.44"
tracing-subscriber = { version = "=0.3.23", features = ["env-filter"] }
libc = "=0.2.191"
