[package]
name = "mouse_cursor_mover"
version = "0.1.0"
edition = "2021"
publish = false

[dependencies]
tray-icon = "*"
global-hotkey = "*"
winit = "0.30"
image = { version = "0.25", default-features = false, features = ["png"] }
