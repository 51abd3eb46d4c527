[package]
name = "xenu"
version = "0.1.0"
edition = "2021"
publish = false

[dependencies]
clap = "=2.34.0"
picto = "=0.4.4"
xcb = { version = "=0.10.1", features = ["shm"] }
xcb-util = { version = "=0.4.0", features = ["image", "shm", "cursor", "misc", "icccm"] }
