[package]
name = "pumpkin_item"
version = "0.1.0"
edition = "2021"
publish = false

[dependencies]
pumpkin-data = "0.0.0"
log = "0.4"
serde = { version = "1", features = ["derive"] }
async-trait = "0.1"
