[package]
name = "chess_ai"
version = "0.1.0"
edition = "2021"
publish = false

[dependencies]
shakmaty = "=0.20.7"
sdl2 = { version = "=0.38.0", features = ["image"] }
