[package]
name = "chords"
version = "0.1.0"
edition = "2021"
publish = false

[dependencies]
scraper = "*"
url = "2"
urlencoding = "2"
serde = { version = "1", features = ["derive"] }
serde_json = "1"
reqwest = { version = "0.12", default-features = false, features = ["rustls-tls"] }
tokio = { version = "1", features = ["rt-multi-thread"] }
rusqlite = { version = "*", features = ["bundled"] }
dirs = "*"
once_cell = "1"
gtk4 = "*"
libadwaita = "*"
pangocairo = "*"

[dev-dependencies]
regex = "1"
