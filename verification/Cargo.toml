[package]
name = "su_store"
version = "0.1.0"
edition = "2021"
publish = false

[dependencies]
diesel = { version = "=2.3.14", features = ["postgres", "r2d2", "serde_json"] }
serde = { version = "=1.0.229", features = ["derive"] }
serde_json = "=1.0.151"
