[package]
name = "repro_build"
version = "0.1.0"
edition = "2021"

[dependencies]
rand = "0.8"
cargo_metadata = "*"
clap = { version = "4", features = ["derive"] }
colored = "*"
