[package]
name = "faiden"
version = "0.1.0"
edition = "2021"
publish = false

[dependencies]
serde = { version = "1", features = ["derive"] }
serde_json = "1"
rusqlite = { version = "0.32", features = ["bundled"] }
uuid = { version = "1", features = ["v4"] }
portable-pty = "0.8"
libc = "0.2"
tauri = { version = "2", default-features = false }

[dev-dependencies]
tempfile = "3"
