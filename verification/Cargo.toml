[package]
name = "numr"
version = "0.1.0"
edition = "2021"
publish = false

[dependencies]
rust_decimal = { version = "=1.43.0", features = ["maths"] }
serde = { version = "1", features = ["derive"] }
serde_json = "1"
directories = "5"
