[package]
name = "pianoroll"
version = "0.1.0"
edition = "2021"
publish = false

[dependencies]
cgmath = "0.17"
palette = "0.2"
glutin = "0.21"
gfx = "0.18"
gfx_device_gl = "0.16"
gfx_window_glutin = "0.31"
iced = "0.1"
