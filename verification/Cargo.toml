[package]
name = "color_picker"
version = "0.1.0"
edition = "2021"
publish = false

[dependencies]
iced_core = "0.13"
iced_graphics = { version = "0.13", features = ["geometry"] }
