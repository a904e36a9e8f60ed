[package]
name = "raytracer"
version = "0.1.0"
edition = "2021"
publish = false

[dependencies]
console = "0.15"
fastrand = "2"
indicatif = "0.17"
png = "0.17"
