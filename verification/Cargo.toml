[package]
name = "slatepack"
version = "0.1.0"
edition = "2021"
publish = false

[dependencies]
bs58 = "*"
minify = "*"
sha2 = "0.8"

[dev-dependencies]
regex = "*"
