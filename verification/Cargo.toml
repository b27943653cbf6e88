[package]
name = "plotters_skia"
version = "0.1.0"
edition = "2021"
publish = false

[dependencies]
plotters-backend = "=0.3.7"
skia-safe = "=0.78.2"
