[package]
name = "echo_state"
version = "0.1.0"
edition = "2021"
publish = false

[dependencies]
nalgebra = { version = "0.33", default-features = false, features = ["std"] }
ndarray = "0.16"
num-traits = "0.2"
rand = "0.8"
