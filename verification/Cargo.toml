[package]
name = "arboard"
version = "0.1.0"
edition = "2021"
publish = false

[dependencies]
image = { version = "=0.23.14", default-features = false, features = ["tiff"] }
objc = "=0.2.7"
objc_id = "=0.1.1"
objc-foundation = "=0.1.1"
lazy_static = "=1.5.1"
