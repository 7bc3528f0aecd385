[package]
name = "gbuf"
version = "0.1.0"
edition = "2021"
publish = false

[dependencies]
flate2 = "=1.1.10"
chrono = "=0.4.45"
eframe = { version = "=0.30.0", default-features = false, features = ["glow", "x11", "default_fonts"] }
rfd = { version = "=0.15.4", default-features = false, features = ["xdg-portal", "tokio"] }
