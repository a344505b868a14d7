[package]
name = "poetry_wall"
version = "0.1.0"
edition = "2021"
publish = false

[dependencies]
palette = "*"
rusttype = "*"
image = "*"
clap = "*"
