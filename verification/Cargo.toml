[package]
name = "mesh_thumbnail"
version = "0.1.0"
edition = "2021"
publish = false

[dependencies]
zip = { version = "*", default-features = false, features = ["deflate"] }
clap = { version = "*", features = ["derive"] }
image = "*"
three-d = { version = "*", default-features = false, features = ["headless"] }
three-d-asset = { version = "*", features = ["png", "jpeg"] }
threemf = "*"
stl_io = "*"
wavefront_obj = "*"
