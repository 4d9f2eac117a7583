[package]
name = "precompress"
version = "0.1.0"
edition = "2021"
publish = false

[dependencies]
anyhow = "1"
brotli = "*"
clap = { version = "4", features = ["derive", "cargo"] }
clap-help = "*"
flate2 = "1"
globset = "0.4"
indicatif = "*"
lazy-regex = "*"
lzw = "0.10"
md5 = "*"
threadpool = "1"
walkdir = "2"
zstd = "*"
