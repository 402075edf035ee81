[package]
name = "radicle_views"
version = "0.1.0"
edition = "2021"
publish = false

[dependencies]
anyhow = "*"
radicle = "*"
radicle-surf = "*"
serde = { version = "*", features = ["derive"] }
serde_json = "*"
thiserror = "*"
