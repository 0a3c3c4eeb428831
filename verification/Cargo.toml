[package]
name = "ctty_rs"
version = "0.1.0"
edition = "2021"
publish = false

[dependencies]
glob = "*"
nix = { version = "*", features = ["fs"] }
thiserror = "*"
