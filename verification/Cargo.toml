[package]
name = "sketchpad"
version = "0.1.0"
edition = "2021"
publish = false

[dependencies]
find_folder = "=0.3.0"
piston_window = "=0.148.0"
