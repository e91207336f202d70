[package]
name = "cfait"
version = "0.1.0"
edition = "2021"
publish = false

[dependencies]
isolang = { version = "=2.4.0", features = ["english_names", "local_names"] }
fastrand = "=2.5.0"
serde = { version = "=1.0.229", features = ["derive"] }
serde_json = "=1.0.154"
anyhow = "=1.0.104"
uuid = { version = "1", features = ["v4"] }
