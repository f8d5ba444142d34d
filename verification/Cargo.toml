[package]
name = "phpxx"
version = "0.1.0"
edition = "2021"
publish = false

[dependencies]
snailquote = "0.3"
unicode-segmentation = "1"
logos = "0.12"
colored = "2"
