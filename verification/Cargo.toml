[package]
name = "ctxmenu"
version = "1.0.0"
edition = "2021"
publish = false

[dependencies]
anyhow = "=1.0.104"
rustc-hash = "=2.1.3"
iconflow = { version = "=2.1.0", features = ["pack-feather"] }
