[package]
name = "glyph_console"
version = "0.1.0"
edition = "2021"
publish = false

[dependencies]
glium = "0.25"
image = { version = "0.22", default-features = false, features = ["png_codec"] }
