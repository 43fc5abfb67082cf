[package]
name = "index_scheduler"
version = "0.1.0"
edition = "2021"
publish = false

[dependencies]
roaring = "0.10"
time = { version = "0.3", features = ["formatting", "parsing", "serde-well-known"] }
uuid = { version = "1", features = ["serde", "v4"] }
serde = { version = "1", features = ["derive"] }
serde_json = "1"
synchronoise = "*"
heed = "*"
