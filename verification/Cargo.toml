[package]
name = "tifiles"
version = "0.1.0"
edition = "2021"
publish = false

[dependencies]
crc32fast = "1"
zip = { version = "0.6", default-features = false }
