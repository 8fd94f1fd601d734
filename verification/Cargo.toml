[package]
name = "screen_grabbing_utility"
version = "0.1.0"
edition = "2021"
publish = false

[dependencies]
global-hotkey = "=0.4.2"
keyboard-types = "=0.7.0"
eframe = { version = "0.23", default-features = false, features = ["default_fonts", "glow", "x11"] }
egui = "0.23"
egui_extras = { version = "0.23", default-features = false }
egui-notify = "0.10"
image = { version = "0.24", default-features = false, features = ["png", "jpeg", "gif"] }
imageproc = { version = "0.23", default-features = false }
rusttype = "0.9"
arboard = "3"
chrono = "0.4"
