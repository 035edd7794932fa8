[package]
name = "jlabel"
version = "0.1.0"
edition = "2021"
publish = false

[dependencies]
regex-automata = "=0.4.18"
regex-syntax = "=0.8.11"
serde = { version = "=1.0.229", features = ["derive"] }
thiserror = "=1.0.69"
