[package]
name = "eidolon"
version = "0.1.0"
edition = "2021"
publish = false

[dependencies]
image = "*"
clap = { version = "*", features = ["derive"] }
log = "*"
env_logger = "*"
cgmath = "*"
glium = "0.32"
glutin = "0.29"
tobj = "*"
pyo3 = "*"
