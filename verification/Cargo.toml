[package]
name = "expandvars"
version = "0.1.0"
edition = "2021"
publish = false

[dependencies]
envmnt = "*"
rustix = { version = "*", default-features = false, features = ["process", "std"] }
nix = { version = "*", features = ["process"] }
