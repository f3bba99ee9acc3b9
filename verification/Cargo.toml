[package]
name = "pastebin"
version = "0.1.0"
edition = "2021"
publish = false

[dependencies]
rand = "*"
axum = "*"
axum-extra = { version = "*", features = ["cookie-signed"] }
http = "*"
serde = { version = "*", features = ["derive"] }
tokio = { version = "*", features = ["rt"] }
