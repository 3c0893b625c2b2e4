[package]
name = "mac_key_remapper"
version = "0.1.0"
edition = "2021"
publish = false

[dependencies]
ctrlc = "3"
dirs = "5"
enigo = "0.1"
open = "5"
serde = { version = "1", features = ["derive"] }
serde_json = "1"
