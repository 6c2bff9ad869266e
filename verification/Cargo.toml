[package]
name = "render_engine"
version = "0.1.0"
edition = "2021"
publish = false

[dependencies]
env_logger = "=0.10.2"
pixels = "=0.13.0"
winit = "=0.28.7"
winit_input_helper = "0.14"
