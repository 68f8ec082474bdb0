[package]
name = "astro_grader"
version = "0.1.0"
edition = "2021"
publish = false

[dependencies]
twox-hash = "2"
serde = { version = "1", features = ["derive"] }
serde_json = "1"
fitsio = { version = "*", features = ["fitsio-src"] }
sep-sys = "*"
rayon = "1"
crossbeam-channel = "0.5"
walkdir = "2"
glob = "0.3"
anyhow = "1"
tokio = { version = "1", features = ["fs", "rt", "macros"] }
