[package]
name = "actix_async"
version = "0.1.0"
edition = "2021"
publish = false

[dependencies]
slab = "0.4"
tokio = { version = "1", features = ["rt", "time"] }
actix-rt = "2"
