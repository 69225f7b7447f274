[package]
name = "classic_games"
version = "0.1.0"
edition = "2021"
publish = false

[dependencies]
macroquad = "=0.3.26"
quad-rand = "=0.2.3"
sdl2 = "=0.35.2"
