[package]
name = "migrust"
version = "0.1.0"
edition = "2021"
publish = false

[dependencies]
clap = { version = "4", features = ["derive"] }
directories = "5"
rand = "0.8"
serde = "1"
serde_derive = "1"
serde_json = "1"
uuid = { version = "1", features = ["v1"] }
