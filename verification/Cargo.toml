[package]
name = "bevy_assetio_zip"
version = "0.1.0"
edition = "2021"
publish = false

[dependencies]
zip = { version = "=0.5.13", default-features = false, features = ["deflate", "bzip2"] }
toml = "=0.5.11"
serde = { version = "=1.0.229", features = ["derive"] }
walkdir = "=2.5.0"
xorio = "=0.1.0"
bevy = { version = "=0.5.0", default-features = false }
