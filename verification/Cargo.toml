[package]
name = "libemin"
version = "0.1.0"
edition = "2021"
publish = false

[dependencies]
anyhow = "1"
chrono = { version = "=0.4.45", default-features = false, features = ["alloc", "clock", "std"] }
cookie_store = { version = "0.22", default-features = false, features = ["serde_json"] }
directories = "=6.0.0"
eframe = { version = "=0.31.1", default-features = false, features = ["default_fonts", "glow"] }
egui_extras = { version = "=0.31.1", default-features = false, features = ["datepicker"] }
# The window system below eframe.
glutin-winit = { version = "0.5", default-features = false, features = ["egl", "glx", "wgl", "x11"] }
regex = "=1.13.1"
reqwest = { version = "=0.12.28", default-features = false, features = ["blocking", "charset", "cookies", "default-tls"] }
reqwest_cookie_store = { version = "0.9", default-features = false, features = ["serde"] }
scraper = { version = "=0.23.1", default-features = false, features = ["errors"] }
serde = { version = "1", features = ["derive"] }
serde_json = "=1.0.154"
url = "=2.5.8"
