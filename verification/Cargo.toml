[package]
name = "jconvert"
version = "0.1.0"
edition = "2021"
publish = false

[dependencies]
anyhow = "*"
clap = { version = "*", features = ["derive"] }
colored = "*"
glob = "*"
indicatif = "*"
memmap2 = "*"
rayon = "*"
serde_json = "*"
thiserror = "*"
walkdir = "*"
