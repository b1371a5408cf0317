[package]
name = "img_accel"
version = "0.1.0"
edition = "2021"
publish = false

[dependencies]
image = "0.24"
ocl = "0.19"
log = "0.4"
