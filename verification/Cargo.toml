[package]
name = "digirain"
version = "0.1.0"
edition = "2021"
publish = false

[dependencies]
rand = { version = "0.9", features = ["small_rng"] }
crossterm = "0.29"
clap = { version = "4", features = ["derive"] }
