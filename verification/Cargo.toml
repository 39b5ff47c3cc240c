[package]
name = "photokeep_verifier"
version = "0.1.0"
edition = "2021"
publish = false

[dependencies]
aes-gcm = "0.10"
base64 = "0.22"
hex = "0.4"
rand = "0.8"
serde = { version = "1", features = ["derive"] }
thiserror = "1"
tempfile = "3"
open = "5"
zip = { version = "2", default-features = false, features = ["deflate"] }
