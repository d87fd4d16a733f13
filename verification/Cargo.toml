[package]
name = "tiny_raytracer_lib"
version = "0.1.0"
edition = "2021"
publish = false

[dependencies]
cgmath = "*"
image = "*"
