[package]
name = "osm2lanes"
version = "0.1.0"
edition = "2021"
publish = false

[dependencies]
piet = "*"
serde = { version = "1", features = ["derive"] }
