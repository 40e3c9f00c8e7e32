[package]
name = "test_data_generator"
version = "0.1.0"
edition = "2021"
publish = false

[dependencies]
anyhow = "1"
ark-bn254 = "0.4"
ark-ff = "0.4"
ark-std = "0.4"
chrono = "0.4"
rand = "0.8"
serde = { version = "1", features = ["derive"] }
serde_json = "1"
