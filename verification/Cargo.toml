[package]
name = "torrent_magnet"
version = "0.1.0"
edition = "2021"
publish = false

[dependencies]
magnet-url = "=3.0.0"
rs_torrent_magnet = "=0.3.0"
serde = { version = "=1.0.229", features = ["derive"] }
serde_json = "=1.0.151"

[dev-dependencies]
tempfile = "*"
