[package]
name = "bimage"
version = "0.1.0"
edition = "2021"
publish = false

[dependencies]
texpresso = "=2.0.2"
fast_image_resize = "=2.7.3"
image = { version = "=0.24.9", default-features = false, features = ["png"] }
windows-sys = { version = "0.48", features = ["Win32_Foundation", "Win32_System_Console"] }
