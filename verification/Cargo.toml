[package]
name = "glossa"
version = "0.1.0"
edition = "2021"
publish = false

[dependencies]
dirs = "*"
flate2 = "1"
iced = { version = "0.14.0", default-features = false, features = ["tiny-skia", "x11", "thread-pool"] }
rusqlite = { version = "*", features = ["bundled"] }
serde = { version = "1", features = ["derive"] }
serde_json = "1"
ureq = "*"
