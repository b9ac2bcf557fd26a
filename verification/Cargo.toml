[package]
name = "compositor"
version = "0.1.0"
edition = "2021"
publish = false

[dependencies]
ash = "*"
lazy_static = "1"
smithay = { version = "*", default-features = false, features = ["wayland_frontend"] }

[dev-dependencies]
drm-fourcc = "*"
wayland-server = "*"
