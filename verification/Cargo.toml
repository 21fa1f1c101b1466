[package]
name = "ocelotl"
version = "0.1.0"
edition = "2021"
publish = false

[dependencies]
safetensors = "0.7"
serde = { version = "1", features = ["derive"] }
serde_json = "1"
rayon = "1"
thiserror = "2"
cubecl = { version = "0.10", default-features = false }
