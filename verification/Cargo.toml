[package]
name = "cli_app"
version = "0.1.0"
edition = "2021"
publish = false

[dependencies]
flate2 = "*"
clap = { version = "*", features = ["derive"] }
rayon = "*"
