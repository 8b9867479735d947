[package]
name = "lib_klipper"
version = "0.1.0"
edition = "2021"
publish = false

[dependencies]
lexical-core = "0.8"
regex = "1"
glam = "0.24"
clap = { version = "3", features = ["derive"] }
serde = { version = "1", features = ["derive"] }
serde_json = "1"
thiserror = "1"
