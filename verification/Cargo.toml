[package]
name = "launcher"
version = "0.1.0"
edition = "2021"
publish = false

[dependencies]
atty = "=0.2.14"
chrono = "=0.4.45"
eval = "=0.4.3"
freedesktop-desktop-entry = "=0.8.3"
fuzzy-matcher = "=0.3.7"
rusqlite = { version = "=0.40.2", features = ["bundled"] }
scraper = "=0.27.0"
serde = { version = "=1.0.229", features = ["derive"] }
shlex = "=1.3.0"
toml = "=1.1.7"
ureq = { version = "=2.12.1", default-features = false, features = ["json"] }
urlencoding = "=2.1.3"
xdg = "=3.0.0"
