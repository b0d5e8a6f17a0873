[package]
name = "voxel_core"
version = "0.1.0"
edition = "2021"
publish = false

[dependencies]
cgmath = "0.17"
gl = "0.14"
glfw = "0.42"
image = "0.23"
