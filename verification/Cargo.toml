[package]
name = "pattern_gen"
version = "0.1.0"
edition = "2021"
publish = false

[dependencies]
image = "0.24"
imageproc = "0.23"
rand = "0.8"
num-complex = "0.4"
serde = { version = "1", features = ["derive"] }
serde_json = "1"
base64 = "0.21"
