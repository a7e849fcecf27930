[package]
name = "cpu_tweaks"
version = "0.1.0"
edition = "2021"
publish = false

[dependencies]
anyhow = "1"
serde = { version = "1", features = ["derive"] }
eframe = { version = "0.31", default-features = false, features = ["default_fonts", "glow", "x11", "wayland"] }
egui = "0.31"
egui_plot = "0.31"
env_logger = { version = "0.11", default-features = false }
gtk = "0.18"
resvg = { version = "0.45", default-features = false }
