[package]
name = "aquarium_espresso"
version = "0.1.0"
edition = "2021"
publish = false

[dependencies]
rand = "0.8"
rayon = "1"
macroquad = "0.4"
miniquad = "0.4"
image = { version = "0.24", default-features = false, features = ["jpeg", "png"] }
