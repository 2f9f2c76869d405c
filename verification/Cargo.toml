[package]
name = "adjust_pivot"
version = "0.1.0"
edition = "2021"
publish = false

[dependencies]
aviutl2 = "*"
regex = "*"
serde = { version = "*", features = ["derive"] }
serde_json = "*"
anyhow = "*"
