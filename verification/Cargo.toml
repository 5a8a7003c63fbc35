[package]
name = "rust_gallery"
version = "0.1.0"
edition = "2021"
publish = false

[dependencies]
image = "0.24"
jpeg-decoder = "*"
aws-config = "*"
aws-sdk-s3 = "*"
bytes = "*"
tokio = { version = "*", features = ["macros", "rt-multi-thread"] }
