[package]
name = "adjudicator"
version = "0.1.0"
edition = "2021"
publish = false

[dependencies]
diplomacy = "=0.1.3"
serde = { version = "=1.0.229", features = ["derive"] }
wasm-bindgen = { version = "=0.2.129", features = ["serde-serialize"] }
