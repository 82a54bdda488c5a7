[package]
name = "image_browser"
version = "0.1.0"
edition = "2021"
publish = false

[dependencies]
crossbeam-channel = "*"
glam = "*"
image = "*"
speedy2d = "*"
strum_macros = "*"
walkdir = "*"
