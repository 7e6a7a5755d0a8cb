[package]
name = "brain"
version = "0.1.0"
edition = "2021"
publish = false

[dependencies]
sha2 = "0.10"
xxhash-rust = { version = "0.8", features = ["xxh3"] }
base64 = "0.22"
hex = "0.4"
serde = { version = "1", features = ["derive"] }
serde_json = "1"
regex = "1"
globset = "0.4"
walkdir = "2"
clap = { version = "4", features = ["derive", "env"] }
