[package]
name = "bitmapflow"
version = "0.1.0"
edition = "2021"
publish = false

[dependencies]
anyhow = "1"
approx = "0.4"
bracket-color = "0.8"
chrono = "0.4"
crossbeam-channel = "0.5"
gdnative = "0.9"
gif = "0.11"
gif-dispose = "3"
image = "0.23"
imgref = "1"
itertools = "0.10"
log = "0.4"
opencv = "0.53"
rayon = "1"
rgb = "0.8"
serde = { version = "1", features = ["derive"] }
serde_json = "1"
