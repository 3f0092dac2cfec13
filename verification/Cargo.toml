[package]
name = "key_speed_logger"
version = "0.1.0"
edition = "2021"
publish = false

[dependencies]
chrono = "0.4"
csv = "1"
eframe = { version = "0.29", default-features = false, features = ["default_fonts", "glow", "x11"] }
rfd = "0.15"
