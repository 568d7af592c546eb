[package]
name = "image_organizer"
version = "0.2.0"
edition = "2021"
publish = false

[dependencies]
rusqlite = "*"
image = { version = "0.25", default-features = false, features = ["png", "jpeg", "gif", "webp", "bmp", "tiff"] }
kamadak-exif = "*"
libheif-rs = "*"
walkdir = "2"
serde = { version = "1", features = ["derive"] }
