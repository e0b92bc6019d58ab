[package]
name = "sutra"
version = "0.1.0"
edition = "2021"
publish = false

[dependencies]
unicode-segmentation = "=1.13.3"
regex = "=1.13.1"
termcolor = "=1.4.1"
clap = { version = "=4.6.7", features = ["derive"] }
walkdir = "=2.5.0"
difference = "2"
