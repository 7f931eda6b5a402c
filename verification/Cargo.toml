[package]
name = "aiman"
version = "0.1.0"
edition = "2021"
publish = false

[dependencies]
serde = { version = "1", features = ["derive"] }
serde_json = "1"
dioxus = { version = "0.7", default-features = false, features = ["macro", "html", "signals", "hooks", "router", "fullstack"] }
libsql = { version = "0.9", default-features = false, features = ["remote"] }
