[package]
name = "rivett"
version = "0.1.0"
edition = "2021"
publish = false

[dependencies]
rusqlite = { version = "0.32", features = ["bundled"] }
uuid = { version = "1", features = ["v4"] }
serde = { version = "1", features = ["derive"] }
serde_json = "1"
kamadak-exif = "0.5"
image = { version = "0.25", default-features = false, features = ["png", "jpeg", "webp", "bmp", "tiff", "gif", "exr"] }
dirs = "5"
png = "0.17"
log = "0.4"
env_logger = { version = "0.11", default-features = false }
resvg = { version = "0.44", default-features = false }
arboard = "3"
showfile = "0.1"
