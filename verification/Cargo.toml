[package]
name = "privmsg"
version = "0.1.0"
edition = "2021"
publish = false

[dependencies]
aes-gcm = "*"
base64 = "*"
chrono = "*"
rand = "*"
ring = "*"
serde = { version = "*", features = ["derive"] }
serde_json = "*"
sha2 = "*"
tokio = { version = "*", features = ["sync", "rt", "macros", "time"] }
x25519-dalek = { version = "*", features = ["static_secrets"] }
