[package]
name = "buffi"
version = "0.1.0"
edition = "2021"
publish = false

[dependencies]
bincode = { version = "2", features = ["serde"] }
cgmath = { version = "0.18", features = ["serde"] }
chrono = { version = "0.4", features = ["serde"] }
proc-macro2 = "1"
quote = "1"
rustdoc-types = "*"
serde = { version = "1", features = ["derive"] }
serde-generate = "*"
serde-reflection = "*"
serde_json = "1"
syn = { version = "2", features = ["full", "visit", "extra-traits"] }
tokio = { version = "1", features = ["rt-multi-thread"] }
toml = "*"
