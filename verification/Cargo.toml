[package]
name = "exifmeta"
version = "0.1.0"
edition = "2021"
publish = false

[dependencies]
chrono = "=0.4.45"
clap = "=4.6.7"
colored = "=3.1.1"
crossterm = "=0.29.0"
kamadak-exif = "=0.6.1"
little_exif = "=0.6.23"
ratatui = "=0.30.2"
rattles = "=0.3.1"
rusqlite = { version = "=0.41.1", features = ["bundled", "serialize"] }
serde_json = "=1.0.154"
serde_yaml = "=0.9.34"
