[package]
name = "nd-organizer"
version = "0.1.0"
edition = "2021"
publish = false

[dependencies]
base64 = "0.22"
lofty = "0.22"
md-5 = "0.10"
quick-xml = "0.37"
serde = { version = "1", features = ["derive"] }
serde_json = "1"
