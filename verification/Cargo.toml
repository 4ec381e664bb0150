[package]
name = "mubah"
version = "0.1.0"
edition = "2021"
publish = false

[dependencies]
cgmath = "=0.18.0"
piston_window = "=0.148.0"
rand = "=0.10.3"
time = "=0.1.45"

[dev-dependencies]
capnp = "=0.27.2"
