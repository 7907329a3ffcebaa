[package]
name = "simple_wrapper"
version = "0.1.0"
edition = "2021"

[dependencies]
anyhow = "=1.0.104"
freedesktop-desktop-entry = "=0.5.2"
libc = "=0.2.191"
slog = "=2.8.2"
smithay = { version = "=0.3.0", default-features = false, features = ["backend_egl", "renderer_gl"] }
smithay-client-toolkit = "=0.16.1"
wayland-egl = "=0.29.5"
