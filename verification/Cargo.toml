[package]
name = "osctet"
version = "0.1.0"
edition = "2021"
publish = false

[dependencies]
cpal = "0.15"
flate2 = "1"
fundsp = "0.20"
macroquad = "0.4"
rand = "0.8"
rmp-serde = "1"
serde = { version = "1", features = ["derive"] }
