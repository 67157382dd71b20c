[package]
name = "uniffi_dart"
version = "0.1.0"
edition = "2021"
publish = false

[dependencies]
anyhow = "1"
camino = "1"
clap = { version = "4", features = ["derive"] }
genco = "0.17"
serde = { version = "1", features = ["derive"] }
toml = "0.5"
uniffi_bindgen = "0.29"
