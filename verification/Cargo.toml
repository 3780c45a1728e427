[package]
name = "canvas_renderer"
version = "0.1.0"
edition = "2021"
publish = false

[dependencies]
imgui = "=0.12.0"
sdl2 = { version = "=0.38.0", features = ["unsafe_textures"] }
