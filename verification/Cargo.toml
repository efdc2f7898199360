[package]
name = "tetrox"
version = "0.1.0"
edition = "2021"
publish = false

[dependencies]
rand = "=0.8.8"
serde = { version = "1", features = ["derive"] }
serde_json = "1"
bimap = { version = "0.6", features = ["serde"] }
