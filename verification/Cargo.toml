[package]
name = "tinynn"
version = "0.1.0"
edition = "2021"

[dependencies]
rand = "0.8"
libm = "0.2"
csv = "1"
sdl2 = "0.37"
