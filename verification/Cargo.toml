[package]
name = "typing_test"
version = "0.1.0"
edition = "2021"
publish = false

[dependencies]
rand = "0.8"
serde = { version = "1", features = ["derive"] }
serde_json = "1"
crossterm = "0.27"
ctrlc = "3"
chrono = "0.4"
directories = "5"
