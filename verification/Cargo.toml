[package]
name = "pam_explainer"
version = "0.1.0"
edition = "2021"
publish = false

[dependencies]
sha256 = "*"
serde = { version = "*", features = ["derive"] }
serde_json = "*"
dialoguer = "*"
