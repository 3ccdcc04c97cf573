[package]
name = "asteroid_geom"
version = "0.1.0"
edition = "2021"
publish = false

[dependencies]
rand = "*"
rapier2d-f64 = "*"
