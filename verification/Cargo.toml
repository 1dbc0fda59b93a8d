[package]
name = "tauri_runtime_cef"
version = "0.1.0"
edition = "2021"
publish = false

[dependencies]
cef = "=156.3.0"
gtk4 = { version = "=0.11.5", features = ["v4_12"] }
libc = "=0.2.191"
raw-window-handle = "=0.6.2"
softbuffer = "=0.4.8"
wayland-client = { version = "=0.31.15", features = ["system"] }
winit = "=0.31.0-beta.4"
x11-dl = "=2.21.0"
