[package]
name = "music_library"
version = "0.1.0"
edition = "2021"
publish = false

[dependencies]
lofty = "=0.22.4"
r2d2 = "=0.8.10"
r2d2_sqlite = { version = "=0.35.0", features = ["bundled"] }
rayon = "=1.12.0"
rusqlite = "=0.40.2"
thiserror = "=2.0.21"
walkdir = "=2.5.0"
