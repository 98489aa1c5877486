[package]
name = "lofi_core"
version = "0.1.0"
edition = "2021"
publish = false

[dependencies]
fuzzy-matcher = "0.3"
serde = { version = "1", features = ["derive"] }
serde_json = "1"
rusqlite = { version = "*", features = ["bundled"] }
zbus = "5"
gtk4 = "*"
libadwaita = "*"
gio-unix = "*"

[dev-dependencies]
tempfile = "3"
