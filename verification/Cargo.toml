[package]
name = "clean_big_targets"
version = "0.1.0"
edition = "2021"
publish = false

[dependencies]
clap = { version = "*", features = ["derive", "env"] }
dialoguer = "*"
humanize-bytes = "*"
rayon = "*"
