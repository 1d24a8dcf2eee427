[package]
name = "evtx_archiver"
version = "0.1.0"
edition = "2021"
publish = false

[dependencies]
sanitize-filename = "*"
chrono = "*"
clap = { version = "*", features = ["derive"] }
directories = "*"
evtx = "*"
infer = "*"
serde = { version = "*", features = ["derive"] }
serde_json = "*"
tar = "*"
xz2 = "*"
