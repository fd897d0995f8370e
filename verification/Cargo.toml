[package]
name = "wheelpack"
version = "0.1.0"
edition = "2021"
publish = false

[dependencies]
sha2 = "*"
base64 = "*"
zip = "*"
toml = "*"
serde = { version = "*", features = ["derive"] }
structopt = "*"
