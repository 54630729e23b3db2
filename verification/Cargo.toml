[package]
name = "engine"
version = "0.1.0"
edition = "2021"
publish = false

[dependencies]
specs = { version = "=0.20.0", default-features = false }
nphysics3d = "=0.24.0"
ncollide3d = "=0.32.0"
nalgebra = "=0.29.0"
nalgebra-glm = "=0.15.0"
rand = "=0.8.8"
gl = "=0.14.0"
glfw = "=0.63.0"
image = { version = "=0.25.10", default-features = false, features = ["png", "jpeg"] }
tobj = "=4.0.5"
log = "=0.4.34"
pretty_env_logger = "=0.5.0"
