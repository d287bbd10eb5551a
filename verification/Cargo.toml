[package]
name = "vocab_trainer"
version = "0.1.0"
edition = "2021"
publish = false

[dependencies]
levenshtein = "1"
rand = "0.8"
bincode = "1"
serde = { version = "1", features = ["derive"] }
