[package]
name = "jinn_imageviewer"
version = "0.1.0"
edition = "2021"
publish = false

[dependencies]
eframe = { version = "=0.31.1", default-features = false, features = ["default_fonts", "glow", "x11"] }
image = { version = "0.25", default-features = false, features = ["png", "jpeg", "gif", "bmp", "webp", "tiff"] }
kamadak-exif = "0.6"
open = "5"
raw-window-handle = "0.6"
serde = { version = "1", features = ["derive"] }
serde_json = "1"
