[package]
name = "purple8"
version = "0.1.0"
edition = "2021"
publish = false

[dependencies]
eframe = { version = "0.33", default-features = false, features = ["default_fonts", "glow", "x11"] }
rfd = "0.15"
rodio = { version = "0.22", default-features = false, features = ["playback"] }
