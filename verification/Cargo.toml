[package]
name = "save_migration"
version = "0.1.0"
edition = "2021"
publish = false

[dependencies]
hecs = "*"

[dev-dependencies]
serde_json = "*"
