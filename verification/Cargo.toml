[package]
name = "zip_read"
version = "0.1.0"
edition = "2021"
publish = false

[dependencies]
bzip2 = "0.6"
crc32fast = "=1.5.2"
flate2 = "1"
liblzma = "0.4"
tokio = { version = "=1.53.2", features = ["rt", "io-util", "fs", "macros"] }
zstd = "0.14"
