[package]
name = "snake_game"
version = "0.1.0"
edition = "2021"
publish = false

[dependencies]
rand = "0.6.5"
piston = "*"
pistoncore-glutin_window = "*"
pistoncore-input = "*"
piston2d-graphics = "*"
piston2d-opengl_graphics = "*"
