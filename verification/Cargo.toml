[package]
name = "arete_binding"
version = "0.1.0"
edition = "2021"
publish = false

[dependencies]
nalgebra-glm = "*"
noise = "*"
