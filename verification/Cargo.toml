[package]
name = "learnopengl"
version = "0.1.0"
edition = "2021"
publish = false

[dependencies]
image = "=0.24.9"
gl = "=0.14.0"
glfw = { version = "=0.52.0", default-features = false }
nalgebra-glm = "=0.18.0"
rand = "=0.8.5"
rand_pcg = "=0.3.1"
lazy_static = "=1.4.0"
freetype = "=0.7.2"
rodio = { version = "=0.17.3", default-features = false, features = ["mp3", "wav"] }
