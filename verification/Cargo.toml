[package]
name = "xiu"
version = "0.1.0"
edition = "2021"
publish = false

[dependencies]
anyhow = "1"
config = { version = "0.13", default-features = false }
log = "0.4"
serde = { version = "1", features = ["derive"] }
simplelog = "0.12"
time = { version = "0.3", features = ["macros"] }
tokio = { version = "1", features = ["full"] }
