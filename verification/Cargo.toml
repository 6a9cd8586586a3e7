[package]
name = "session_manager"
version = "0.1.0"
edition = "2021"
publish = false

[dependencies]
async-trait = "*"
axum-extra = { version = "*", features = ["cookie"] }
http = "*"
tower = "*"
