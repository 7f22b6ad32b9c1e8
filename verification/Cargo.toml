[package]
name = "neutauri_data"
version = "0.1.0"
edition = "2021"
publish = false

[dependencies]
brotli = "3.3"
new_mime_guess = "4"
bincode = "1.3"
serde = { version = "1", features = ["derive"] }
toml = "0.5"
anyhow = "1"
gumdrop = "0.8"
inquire = "0.6"
image = { version = "0.24", default-features = false, features = ["png", "jpeg", "ico", "bmp", "gif"] }
wry = "0.24"
