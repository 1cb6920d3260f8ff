[package]
name = "pizauth"
version = "0.1.0"
edition = "2021"
publish = false

[dependencies]
json = "0.12"
sha2 = "0.10"
log = "0.4"
nix = { version = "*", features = ["signal"] }
ureq = { version = "2", default-features = false }
