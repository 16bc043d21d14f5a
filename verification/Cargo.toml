[package]
name = "genplot"
version = "0.1.0"
edition = "2021"
publish = false

[dependencies]
clap = "*"
plotters = { version = "*", default-features = false, features = ["bitmap_backend", "bitmap_encoder", "ab_glyph", "point_series"] }
