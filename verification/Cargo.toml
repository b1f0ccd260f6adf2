[package]
name = "vea"
version = "0.1.0"
edition = "2021"
publish = false

[dependencies]
sha2 = "*"
hex = "*"
uuid = { version = "*", features = ["v7"] }
rusqlite = { version = "*", features = ["bundled", "backup"] }
serde = { version = "*", features = ["derive"] }
serde_json = "*"
thiserror = "*"
fs2 = "*"
same-file = "*"
