[package]
name = "keson"
version = "0.1.0"
edition = "2021"
publish = false

[dependencies]
chrono = "0.4"
hex = "0.4"
lofty = "*"
num_cpus = "1"
rayon = "1"
regex = "1"
serde = { version = "1", features = ["derive"] }
serde_json = "1"
sha2 = "0.10"
tauri = { version = "2", default-features = false }
walkdir = "2"
