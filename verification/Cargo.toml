[package]
name = "yarn_slinger"
version = "0.1.0"
edition = "2021"
publish = false

[dependencies]
log = "0.4"
unicode-segmentation = "=1.13.3"
