[package]
name = "path_tracer"
version = "0.1.0"
edition = "2021"
publish = false

[dependencies]
rand = "*"
rayon = "*"

[dependencies.image]
version = "*"
default-features = false
features = ["png"]
