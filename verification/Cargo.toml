[package]
name = "gitdiff"
version = "0.1.0"
edition = "2021"
publish = false

[dependencies]
anyhow = "=1.0.104"
bytesize = "=2.7.0"
crossterm = "=0.28.1"
log = "=0.4.35"
once_cell = "=1.21.4"
ratatui = { version = "=0.29.0", default-features = false, features = ["crossterm", "serde"] }
rayon-core = "=1.13.0"
ron = "=0.8.1"
serde = { version = "=1.0.229", features = ["derive"] }
unicode-segmentation = "=1.13.3"
unicode-width = "=0.2.0"
