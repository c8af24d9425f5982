[package]
name = "textbuf"
version = "0.1.0"
edition = "2021"
publish = false

[dependencies]
crossterm = "=0.29.0"
unicode-segmentation = "=1.13.3"
