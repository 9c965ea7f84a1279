[package]
name = "pulse_pipeline"
version = "0.1.0"
edition = "2021"
publish = false

[dependencies]
rust-ini = "*"
rand = "*"
rustfft = "*"
num-complex = "*"
serde = { version = "*", features = ["derive"] }
