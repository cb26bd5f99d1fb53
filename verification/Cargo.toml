[package]
name = "chat_index"
version = "0.1.0"
edition = "2021"
publish = false

[dependencies]
serde = { version = "*", features = ["derive"] }
serde_json = "*"
rusqlite = { version = "*", features = ["bundled"] }
aes-gcm = "*"
base64 = "*"
pbkdf2 = "*"
sha2 = "*"
rand = "*"
