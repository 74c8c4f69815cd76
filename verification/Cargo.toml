[package]
name = "isodensity"
version = "0.1.0"
edition = "2021"
publish = false

[dependencies]
colorbrewer = "*"
contour = "*"
plotters = "*"
rand = "*"
