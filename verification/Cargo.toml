[package]
name = "rmenu"
version = "0.1.0"
edition = "2021"
publish = false

[dependencies]
toml = "=1.1.6"
x11 = { version = "=2.21.0", features = ["xlib", "xft", "xinerama", "xrender"] }
