[package]
name = "heightmap_to_stl"
version = "0.1.0"
edition = "2021"
publish = false

[dependencies]
clap = "*"
colour = "*"
image = "*"
stl_io = "*"
