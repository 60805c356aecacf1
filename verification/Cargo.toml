[package]
name = "chip8"
version = "0.1.0"
edition = "2021"
publish = false

[dependencies]
byteorder = "1"
rand = "0.8"
clap = "2.34"
sdl2 = "*"
combine = "1"
