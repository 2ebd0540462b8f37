[package]
name = "agent_installer"
version = "0.1.0"
edition = "2021"
publish = false

[dependencies]
sha2 = "*"
hex = "*"
zip = { version = "*", default-features = false, features = ["deflate"] }
serde_json = "*"
serde = { version = "*", features = ["derive"] }
