[package]
name = "metasort"
version = "1.0.0"
edition = "2021"
publish = false

[dependencies]
chrono = "0.4"
indicatif = "0.17"
rayon = "1"
serde_json = "1"
walkdir = "2"
