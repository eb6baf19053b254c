[package]
name = "liblzma"
version = "0.1.0"
edition = "2021"
publish = false

[dependencies]
lzma-rust2 = "=0.25.0"

[dev-dependencies]
quickcheck = "1"
