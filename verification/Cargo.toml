[package]
name = "ash_starter"
version = "0.1.0"
edition = "2021"
publish = false

[dependencies]
anyhow = "=1.0.104"
ash = "=0.32.1"
flexi_logger = "=0.17.1"
glfw = { version = "=0.41.0", default-features = false, features = ["vulkan"] }
indoc = "=1.0.9"
log = "=0.4.35"
textwrap = { version = "=0.13.4", features = ["terminal_size"] }
