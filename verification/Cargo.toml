[package]
name = "look_everyting"
version = "0.1.0"
edition = "2021"
publish = false

[dependencies]
image = { version = "=0.25.10", default-features = false, features = ["png", "jpeg", "gif", "webp", "bmp", "tiff", "ico"] }
serde = { version = "=1.0.229", features = ["derive"] }
toml = "=0.8.23"
crossbeam-channel = "=0.5.17"
walkdir = "=2.5.0"
open = "=5.4.5"
tobj = "=4.0.5"
stl_io = "=0.8.6"
gltf = "=1.4.1"
zip = { version = "=2.6.1", default-features = false, features = ["deflate"] }
roxmltree = "=0.20.0"
eframe = { version = "=0.31.1", default-features = false, features = ["default_fonts", "glow", "x11"] }
ufbx = "*"
