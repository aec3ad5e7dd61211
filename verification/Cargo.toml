[package]
name = "font_generator"
version = "0.1.0"
edition = "2021"
publish = false

[dependencies]
clap = { version = "4", features = ["derive"] }
fontdue = "0.9"
serde = { version = "1", features = ["derive"] }
toml = "0.8"
unicode-segmentation = "1"
