[package]
name = "heck"
version = "0.1.0"
edition = "2021"
publish = false

[dependencies]
unicode-segmentation = "1.2"
