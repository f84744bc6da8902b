[package]
name = "mcastfs"
version = "0.1.0"
edition = "2021"
publish = false

[dependencies]
serde_json = "1"
serde = { version = "1", features = ["derive"] }
docopt = "1"
hostname = "0.1"
socket2 = "0.3"
walkdir = "2"
