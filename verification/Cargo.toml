[package]
name = "rvimage"
version = "0.1.0"
edition = "2021"
publish = false

[dependencies]
rand = "=0.10.3"
regex = "=1.13.1"
serde = { version = "=1.0.229", features = ["derive"] }
serde_json = "=1.0.154"
serde-pickle = "=1.2.0"
image = { version = "=0.25.10", default-features = false, features = ["png", "jpeg"] }
toml = "=1.1.8"
dirs = "=7.0.0"
lazy_static = "=1.5.1"
log = "=0.4.34"
env_logger = "=0.11.11"
winit = "=0.28.7"
winit_input_helper = "=0.14.1"
pixels = "=0.13.0"
egui = "0.22"
egui-winit = { version = "0.22", default-features = false }
egui_wgpu_backend = "0.24"
