[package]
name = "gws"
version = "0.1.0"
edition = "2021"
publish = false

[dependencies]
coord_2d = "0.2"
direction = "0.17"
grid_2d = "0.12"
grid_search = "=0.15.1"
line_2d = "0.4"
shadowcast = "0.7"
rgb24 = "0.2"
rand = "0.7"
rand_isaac = "0.2"
serde = { version = "1.0", features = ["derive"] }
prototty = "=0.29.0"
wfc = "0.9"
