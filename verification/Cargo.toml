[package]
name = "abbreviator"
version = "0.1.0"
edition = "2021"
publish = false

[dependencies]
anyhow = "1"
async-std = { version = "1", features = ["attributes"] }
serde = { version = "1", features = ["derive"] }
sqlx = { version = "0.6", default-features = false, features = ["runtime-async-std-rustls", "sqlite"] }
tide = "0.16"
