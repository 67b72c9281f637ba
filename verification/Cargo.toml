[package]
name = "rad_builder"
version = "0.1.0"
edition = "2021"
publish = false

[dependencies]
chrono = "=0.4.45"
copypasta = "=0.10.2"
eframe = { version = "=0.36.2", default-features = false, features = ["glow", "persistence", "x11", "default_fonts"] }
egui = { version = "=0.36.2", features = ["persistence"] }
egui_extras = { version = "=0.36.2", features = ["datepicker", "serde", "syntect"] }
serde = { version = "=1.0.229", features = ["derive"] }
serde_json = "=1.0.151"
