[package]
name = "fanwatch"
version = "0.1.0"
edition = "2021"
publish = false

[dependencies]
crossbeam = "0.8"
nix = { version = "0.30", features = ["fanotify", "fs"] }
