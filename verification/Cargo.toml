[package]
name = "totp-server"
version = "0.1.0"
edition = "2021"
publish = false

[dependencies]
totp-rs = "*"
serde = { version = "*", features = ["derive"] }
axum = "*"
tokio = { version = "*", features = ["macros", "rt-multi-thread", "net", "time"] }
tower = { version = "*", features = ["timeout", "util", "buffer"] }
rand = "*"
qrcode = "*"
