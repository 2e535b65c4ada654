[package]
name = "takeashot"
version = "0.1.0"
edition = "2021"
publish = false

[dependencies]
anyhow = "=1.0.104"
bytemuck = { version = "=1.25.2", features = ["derive"] }
clap = { version = "=4.6.7", features = ["derive"] }
egui = "=0.37.0"
egui-wgpu = "=0.37.0"
evdev = { version = "=0.13.2", features = ["tokio"] }
glam = "=0.34.2"
image = { version = "=0.25.10", default-features = false, features = ["png"] }
libc = "=0.2.191"
lyon_path = "=1.0.19"
lyon_tessellation = "=1.0.23"
pollster = "=1.0.1"
raw-window-handle = "=0.6.2"
serde = { version = "=1.0.229", features = ["derive"] }
serde_json = "=1.0.154"
smithay-client-toolkit = { version = "=0.21.1", default-features = false }
tempfile = "=3.27.0"
tokio = { version = "=1.54.1", features = ["full"] }
tracing = "=0.1.44"
tracing-subscriber = { version = "=0.3.23", features = ["env-filter"] }
wayland-client = { version = "=0.31.15", features = ["system", "dlopen"] }
wgpu = "=30.0.1"
wl-clipboard-rs = "=0.9.5"
zbus = { version = "=6.2.1", features = ["tokio"] }
