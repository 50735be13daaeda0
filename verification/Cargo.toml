[package]
name = "freqhole"
version = "0.1.0"
edition = "2021"
publish = false

[dependencies]
sha2 = "*"
base64 = "*"
lofty = "*"
serde = { version = "*", features = ["derive"] }
serde_json = "*"
walkdir = "*"
argh = "*"
mime_guess = "*"
sled = "*"
