[package]
name = "yabridge-manager"
version = "1.0.0"
edition = "2021"
publish = false

[dependencies]
anyhow = "=1.0.104"
dirs = "=6.0.0"
eframe = { version = "=0.31.1", default-features = false, features = ["default_fonts", "glow", "wayland", "x11"] }
egui = "=0.31.1"
rfd = { version = "=0.15.4", default-features = false, features = ["xdg-portal", "tokio"] }
walkdir = "=2.5.0"
