[package]
name = "contact_app"
version = "0.1.0"
edition = "2021"
publish = false

[dependencies]
validator = "*"
fakeit = "*"
axum = "*"
axum-extra = { version = "*", features = ["form"] }
tokio = { version = "*", features = ["full"] }
rand = "*"
serde = { version = "*", features = ["derive"] }
html-escape = "*"
