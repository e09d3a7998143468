[package]
name = "sid"
version = "0.1.0"
edition = "2021"
publish = false

[dependencies]
unicode-segmentation = "=1.13.3"
clap = { version = "=4.6.7", features = ["derive"] }
anyhow = "=1.0.104"
eframe = { version = "0.22", default-features = false, features = ["glow"] }
egui_file = "0.10"
inkwell = { version = "0.4", features = ["llvm15-0"] }
