[package]
name = "precompress"
version = "0.1.0"
edition = "2021"
publish = false

[dependencies]
brotli = { version = "=9.0.0", features = ["portable-float"] }
clap = { version = "=4.6.7", features = ["derive"] }
flate2 = "=1.1.10"
rayon = "=1.12.0"
walkdir = "=2.5.0"
zstd = "=0.14.3"
