[package]
name = "mmap_and_malloc"
version = "0.1.0"
edition = "2021"
publish = false

[dependencies]
anyhow = "=1.0.104"
byte-unit = "=4.0.19"
clap = { version = "=4.6.7", features = ["derive"] }
heed = "=0.20.5"
rand = "=0.8.8"
