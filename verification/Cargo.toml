[package]
name = "life_automata"
version = "0.1.0"
edition = "2021"
publish = false

[dependencies]
rayon = "*"
rand = "0.8"
piston = "*"
piston2d-graphics = "*"
piston2d-opengl_graphics = "*"
pistoncore-glutin_window = "*"
