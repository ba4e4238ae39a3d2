[package]
name = "snap_tap"
version = "0.1.0"
edition = "2021"
publish = false

[dependencies]
anyhow = "*"
ctrlc = "*"
evdev = "*"
nix = { version = "*", features = ["poll"] }
