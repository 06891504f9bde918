[package]
name = "ili9163c"
version = "0.1.0"
edition = "2021"
publish = false

[dependencies]
bresenham = "*"
