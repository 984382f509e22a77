[package]
name = "fftviz"
version = "0.1.0"
edition = "2021"
publish = false

[dependencies]
rayon = "*"
spectrum-analyzer = "*"
rodio = "*"
clap = { version = "4", features = ["derive"] }
serde = { version = "*", features = ["derive"] }
serde_yaml = "*"
dirs = "*"
bincode = "1"
