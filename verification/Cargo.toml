[package]
name = "bookmodel"
version = "0.1.0"
edition = "2021"
publish = false

[dependencies]
language-tags = { version = "*", features = ["serde"] }
url = "*"
serde = { version = "*", features = ["derive"] }
chrono = { version = "*", features = ["serde"] }
uuid = { version = "*", features = ["serde"] }
