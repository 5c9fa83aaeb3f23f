[package]
name = "project_loader"
version = "0.1.0"
edition = "2021"
publish = false

[dependencies]
anyhow = "*"
cargo_metadata = "*"
clap = { version = "*", features = ["derive"] }
rayon = "*"
rustc-hash = "*"
serde = { version = "*", features = ["derive"] }
serde_json = "*"
walkdir = "*"
