[package]
name = "copper_core"
version = "0.1.0"
edition = "2021"
publish = false

[dependencies]
petgraph = "=0.7.1"
ron = "=0.10.1"
html-escape = "=0.2.15"
serde = { version = "=1.0.229", features = ["derive"] }
bytemuck = { version = "=1.25.2", features = ["derive"] }
uom = "=0.36.0"
chrono = "=0.4.45"
libc = "=0.2.191"
page_size = "=0.6.0"
v4l = "=0.14.0"
