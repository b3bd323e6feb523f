[package]
name = "registry_source"
version = "0.1.0"
edition = "2021"
publish = false

[dependencies]
sha2 = "*"
url = "*"
flate2 = "*"
tar = "*"
curl = { version = "*", default-features = false }
git2 = { version = "*", default-features = false }
