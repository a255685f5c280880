[package]
name = "bagger"
version = "0.1.0"
edition = "2021"
publish = false

[dependencies]
mime = "0.3"
mime_guess = "2"
url = "2"
uuid = { version = "1", features = ["serde"] }
proc-macro2 = "1"
quote = "1"
syn = { version = "2", features = ["full", "extra-traits"] }
serde = { version = "1", features = ["derive"] }
serde_json = "1"
spin = "0.9"
lazy_static = "1"
