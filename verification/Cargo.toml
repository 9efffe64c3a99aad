[package]
name = "node_workers"
version = "0.9.2"
edition = "2021"
publish = false

[dependencies]
anyhow = "1"
serde = "1"
serde_json = "1"
shell-words = "1"
