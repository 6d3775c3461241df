[package]
name = "solar_system_rust"
version = "0.1.0"
edition = "2021"
publish = false

[dependencies]
num = "*"
nalgebra = "*"
alga = "*"
gnuplot = "*"
ggez = { version = "*", default-features = false }
